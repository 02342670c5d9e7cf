//! Character-level text utilities with exact specifications.
//!
//! Strings are reasoned about through their `Seq<char>` view. Every executable
//! function here is proved against a spec function that states what std's
//! string method of the same name computes.

use vstd::prelude::*;

verus! {

broadcast use vstd::string::group_string_axioms;

/// `String::push` appends one character.
pub assume_specification[ std::string::String::push ](s: &mut std::string::String, ch: char)
    ensures
        final(s)@ == old(s)@.push(ch),
;

// ---------------------------------------------------------------------------
// Specifications
// ---------------------------------------------------------------------------

/// Unicode `White_Space`, as `char::is_whitespace` defines it.
pub open spec fn is_ws(c: char) -> bool {
    let u = c as u32;
    (0x9 <= u <= 0xd) || u == 0x20 || u == 0x85 || u == 0xa0 || u == 0x1680 || (0x2000 <= u
        <= 0x200a) || u == 0x2028 || u == 0x2029 || u == 0x202f || u == 0x205f || u == 0x3000
}

/// `str::trim_start`: drops leading whitespace.
pub open spec fn trim_start(s: Seq<char>) -> Seq<char>
    decreases s.len(),
{
    if s.len() > 0 && is_ws(s[0]) {
        trim_start(s.drop_first())
    } else {
        s
    }
}

/// `str::trim_end`: drops trailing whitespace.
pub open spec fn trim_end(s: Seq<char>) -> Seq<char>
    decreases s.len(),
{
    if s.len() > 0 && is_ws(s.last()) {
        trim_end(s.drop_last())
    } else {
        s
    }
}

/// `str::trim`: drops whitespace at both ends.
pub open spec fn trimmed(s: Seq<char>) -> Seq<char> {
    trim_end(trim_start(s))
}

/// `str::trim_matches(c)`: drops every leading and trailing `c`.
pub open spec fn trim_char(s: Seq<char>, c: char) -> Seq<char> {
    trim_end_char(trim_start_char(s, c), c)
}

/// Drops every leading `c`.
pub open spec fn trim_start_char(s: Seq<char>, c: char) -> Seq<char>
    decreases s.len(),
{
    if s.len() > 0 && s[0] == c {
        trim_start_char(s.drop_first(), c)
    } else {
        s
    }
}

/// Drops every trailing `c`.
pub open spec fn trim_end_char(s: Seq<char>, c: char) -> Seq<char>
    decreases s.len(),
{
    if s.len() > 0 && s.last() == c {
        trim_end_char(s.drop_last(), c)
    } else {
        s
    }
}

/// `str::starts_with`.
pub open spec fn has_prefix(s: Seq<char>, p: Seq<char>) -> bool {
    p.len() <= s.len() && s.subrange(0, p.len() as int) == p
}

/// `str::ends_with`.
pub open spec fn has_suffix(s: Seq<char>, p: Seq<char>) -> bool {
    p.len() <= s.len() && s.subrange(s.len() - p.len(), s.len() as int) == p
}

/// `p` occurs in `s` at position `i`.
pub open spec fn occurs(s: Seq<char>, p: Seq<char>, i: int) -> bool {
    0 <= i && i + p.len() <= s.len() && s.subrange(i, i + p.len()) == p
}

/// `str::contains` with a string pattern.
pub open spec fn has_sub(s: Seq<char>, p: Seq<char>) -> bool {
    exists|i: int| occurs(s, p, i)
}

/// Index of the first occurrence of `c` in `s` (`str::find` with a char).
pub open spec fn first_index(s: Seq<char>, c: char) -> Option<nat>
    decreases s.len(),
{
    if s.len() == 0 {
        None
    } else if s[0] == c {
        Some(0nat)
    } else {
        match first_index(s.drop_first(), c) {
            Some(i) => Some(i + 1),
            None => None,
        }
    }
}

/// `str::split(c)`: the pieces between occurrences of `c`.
pub open spec fn pieces(s: Seq<char>, c: char) -> Seq<Seq<char>>
    decreases s.len(),
{
    match first_index(s, c) {
        None => seq![s],
        Some(i) => {
            if i < s.len() {
                seq![s.take(i as int)] + pieces(s.skip(i as int + 1), c)
            } else {
                seq![s]
            }
        },
    }
}

/// `str::splitn(2, c)`: the text before the first `c` and, if there is one,
/// the text after it.
pub open spec fn halves(s: Seq<char>, c: char) -> Option<(Seq<char>, Seq<char>)> {
    match first_index(s, c) {
        None => None,
        Some(i) => Some((s.take(i as int), s.skip(i as int + 1))),
    }
}

/// One line of `str::lines`: a trailing `'\r'` is removed from pieces that
/// were followed by `'\n'`.
pub open spec fn without_cr(l: Seq<char>) -> Seq<char> {
    if l.len() > 0 && l.last() == '\r' {
        l.drop_last()
    } else {
        l
    }
}

/// `str::lines`.
pub open spec fn line_seq(s: Seq<char>) -> Seq<Seq<char>> {
    let parts = pieces(s, '\n');
    if parts.last().len() == 0 {
        parts.drop_last().map_values(|l: Seq<char>| without_cr(l))
    } else {
        parts.drop_last().map_values(|l: Seq<char>| without_cr(l)).push(parts.last())
    }
}

/// The longest prefix of `s` without whitespace.
pub open spec fn word_prefix(s: Seq<char>) -> Seq<char>
    decreases s.len(),
{
    if s.len() == 0 || is_ws(s[0]) {
        Seq::empty()
    } else {
        seq![s[0]] + word_prefix(s.drop_first())
    }
}

/// `str::split_whitespace`.
pub open spec fn words(s: Seq<char>) -> Seq<Seq<char>>
    decreases s.len(),
{
    let t = trim_start(s);
    if t.len() == 0 {
        Seq::empty()
    } else {
        let w = word_prefix(t);
        if 0 < w.len() <= t.len() && t.len() <= s.len() {
            seq![w] + words(t.skip(w.len() as int))
        } else {
            Seq::empty()
        }
    }
}

/// Decimal digits of a natural number, as `to_string` prints it.
pub open spec fn decimal_digits(n: nat) -> Seq<char>
    decreases n,
{
    if n < 10 {
        seq![digit_of(n)]
    } else {
        decimal_digits(n / 10).push(digit_of(n % 10))
    }
}

/// The character of a decimal digit.
pub open spec fn digit_of(d: nat) -> char {
    if d == 0 {
        '0'
    } else if d == 1 {
        '1'
    } else if d == 2 {
        '2'
    } else if d == 3 {
        '3'
    } else if d == 4 {
        '4'
    } else if d == 5 {
        '5'
    } else if d == 6 {
        '6'
    } else if d == 7 {
        '7'
    } else if d == 8 {
        '8'
    } else {
        '9'
    }
}

/// Every character is an ASCII digit.
pub open spec fn all_digits(s: Seq<char>) -> bool {
    forall|i: int| 0 <= i < s.len() ==> '0' <= #[trigger] s[i] <= '9'
}

/// The value of a string of ASCII digits.
pub open spec fn digits_value(s: Seq<char>) -> nat
    decreases s.len(),
{
    if s.len() == 0 {
        0
    } else {
        digits_value(s.drop_last()) * 10 + ((s.last() as u32) - ('0' as u32)) as nat
    }
}


/// The value of an optionally signed decimal integer (`i64::from_str`
/// without the range check).
pub open spec fn int_value(s: Seq<char>) -> Option<int> {
    if s.len() == 0 {
        None
    } else {
        let neg = s[0] == '-';
        let d = if s[0] == '-' || s[0] == '+' {
            s.drop_first()
        } else {
            s
        };
        if d.len() > 0 && all_digits(d) {
            Some(
                if neg {
                    -(digits_value(d) as int)
                } else {
                    digits_value(d) as int
                },
            )
        } else {
            None
        }
    }
}

/// What `s.parse::<i64>()` returns, as an option.
pub open spec fn parse_i64_spec(s: Seq<char>) -> Option<i64> {
    match int_value(s) {
        Some(v) => if i64::MIN <= v <= i64::MAX {
            Some(v as i64)
        } else {
            None
        },
        None => None,
    }
}

/// What `s.parse::<u64>()` returns, as an option.
pub open spec fn parse_u64_spec(s: Seq<char>) -> Option<u64> {
    if s.len() == 0 {
        None
    } else {
        let d = if s[0] == '+' {
            s.drop_first()
        } else {
            s
        };
        if d.len() > 0 && all_digits(d) && digits_value(d) <= u64::MAX {
            Some(digits_value(d) as u64)
        } else {
            None
        }
    }
}

/// The views of a vector of character vectors.
pub open spec fn views(v: Seq<Vec<char>>) -> Seq<Seq<char>> {
    v.map_values(|x: Vec<char>| x@)
}

// ---------------------------------------------------------------------------
// Lemmas
// ---------------------------------------------------------------------------

/// A word with no whitespace in it.
pub open spec fn is_word(w: Seq<char>) -> bool {
    w.len() > 0 && forall|i: int| 0 <= i < w.len() ==> !is_ws(#[trigger] w[i])
}

/// The word at the head of `x + y` is `x` when `x` holds no whitespace and
/// `y` is empty or starts with whitespace.
pub proof fn lemma_word_prefix_concat(x: Seq<char>, y: Seq<char>)
    requires
        forall|i: int| 0 <= i < x.len() ==> !is_ws(#[trigger] x[i]),
        y.len() == 0 || is_ws(y[0]),
    ensures
        word_prefix(x + y) == x,
    decreases x.len(),
{
    if x.len() == 0 {
        assert(x + y =~= y);
    } else {
        assert((x + y)[0] == x[0]);
        assert((x + y).drop_first() =~= x.drop_first() + y);
        assert forall|i: int| 0 <= i < x.drop_first().len() implies !is_ws(
            #[trigger] x.drop_first()[i],
        ) by {
            assert(x.drop_first()[i] == x[i + 1]);
        }
        lemma_word_prefix_concat(x.drop_first(), y);
        assert(seq![x[0]] + x.drop_first() =~= x);
    }
}

/// A single word splits into itself.
pub proof fn lemma_words_one(w: Seq<char>)
    requires
        is_word(w),
    ensures
        words(w) == seq![w],
{
    assert(trim_start(w) == w);
    lemma_word_prefix_concat(w, Seq::empty());
    assert(w + Seq::<char>::empty() =~= w);
    assert(w.skip(w.len() as int) =~= Seq::<char>::empty());
    assert(trim_start(Seq::<char>::empty()) == Seq::<char>::empty());
    assert(words(Seq::<char>::empty()) == Seq::<Seq<char>>::empty());
    assert(seq![w] + Seq::<Seq<char>>::empty() =~= seq![w]);
}

/// Two words joined by one tab split into those two words.
pub proof fn lemma_words_tab_pair(a: Seq<char>, b: Seq<char>)
    requires
        is_word(a),
        is_word(b),
    ensures
        words(a + seq!['\t'] + b) == seq![a, b],
{
    let tb = seq!['\t'] + b;
    let s = a + seq!['\t'] + b;
    assert(s =~= a + tb);
    assert(is_ws('\t'));
    assert(trim_start(s) == s);
    lemma_word_prefix_concat(a, tb);
    assert(s.skip(a.len() as int) =~= tb);
    assert(tb.drop_first() =~= b);
    assert(trim_start(tb) == trim_start(b));
    assert(trim_start(b) == b);
    lemma_words_one(b);
    lemma_word_prefix_concat(b, Seq::empty());
    assert(b + Seq::<char>::empty() =~= b);
    assert(words(tb) == words(b)) by {
        assert(trim_start(tb) == b);
    }
    assert(seq![a] + seq![b] =~= seq![a, b]);
}

/// The index found by `index_of` is in bounds and holds `c`; no earlier
/// position holds `c`.
pub proof fn lemma_index_of(s: Seq<char>, c: char)
    ensures
        match first_index(s, c) {
            Some(i) => i < s.len() && s[i as int] == c && forall|j: int|
                0 <= j < i ==> s[j] != c,
            None => forall|j: int| 0 <= j < s.len() ==> s[j] != c,
        },
    decreases s.len(),
{
    if s.len() > 0 && s[0] != c {
        lemma_index_of(s.drop_first(), c);
        match first_index(s.drop_first(), c) {
            Some(i) => {
                assert forall|j: int| 0 <= j < i + 1 implies s[j] != c by {
                    if j > 0 {
                        assert(s[j] == s.drop_first()[j - 1]);
                    }
                }
            },
            None => {
                assert forall|j: int| 0 <= j < s.len() implies s[j] != c by {
                    if j > 0 {
                        assert(s[j] == s.drop_first()[j - 1]);
                    }
                }
            },
        }
    }
}

/// `index_of` is characterised by its first occurrence.
pub proof fn lemma_index_of_unique(s: Seq<char>, c: char, i: int)
    requires
        0 <= i < s.len(),
        s[i] == c,
        forall|j: int| 0 <= j < i ==> s[j] != c,
    ensures
        first_index(s, c) == Some(i as nat),
{
    lemma_index_of(s, c);
}

/// `index_of` is `None` exactly when `c` does not occur.
pub proof fn lemma_index_of_none(s: Seq<char>, c: char)
    requires
        forall|j: int| 0 <= j < s.len() ==> s[j] != c,
    ensures
        first_index(s, c) is None,
{
    lemma_index_of(s, c);
}

/// `trim_start` keeps a suffix.
pub proof fn lemma_trim_start(s: Seq<char>)
    ensures
        trim_start(s).len() <= s.len(),
        trim_start(s) == s.skip(s.len() - trim_start(s).len()),
        trim_start(s).len() > 0 ==> !is_ws(trim_start(s)[0]),
        forall|j: int| 0 <= j < s.len() - trim_start(s).len() ==> is_ws(#[trigger] s[j]),
    decreases s.len(),
{
    if s.len() > 0 && is_ws(s[0]) {
        lemma_trim_start(s.drop_first());
        assert forall|j: int| 0 <= j < s.len() - trim_start(s).len() implies is_ws(
            #[trigger] s[j],
        ) by {
            if j > 0 {
                assert(s[j] == s.drop_first()[j - 1]);
            }
        }
        assert(s.drop_first().skip(s.drop_first().len() - trim_start(s).len()) =~= s.skip(
            s.len() - trim_start(s).len(),
        ));
    } else {
        assert(s.skip(0) =~= s);
    }
}

/// `trim_end` keeps a prefix.
pub proof fn lemma_trim_end(s: Seq<char>)
    ensures
        trim_end(s).len() <= s.len(),
        trim_end(s) == s.take(trim_end(s).len() as int),
        trim_end(s).len() > 0 ==> !is_ws(trim_end(s).last()),
        forall|j: int| trim_end(s).len() <= j < s.len() ==> is_ws(#[trigger] s[j]),
    decreases s.len(),
{
    if s.len() > 0 && is_ws(s.last()) {
        lemma_trim_end(s.drop_last());
        assert(s.drop_last().take(trim_end(s).len() as int) =~= s.take(trim_end(s).len() as int));
        assert forall|j: int| trim_end(s).len() <= j < s.len() implies is_ws(#[trigger] s[j]) by {
            if j < s.len() - 1 {
                assert(s[j] == s.drop_last()[j]);
            }
        }
    } else {
        assert(s.take(s.len() as int) =~= s);
    }
}

/// A characterisation of `trim_start` by positions.
pub proof fn lemma_trim_start_at(s: Seq<char>, k: int)
    requires
        0 <= k <= s.len(),
        forall|j: int| 0 <= j < k ==> is_ws(#[trigger] s[j]),
        k == s.len() || !is_ws(s[k]),
    ensures
        trim_start(s) == s.skip(k),
    decreases k,
{
    if k == 0 {
        assert(s.skip(0) =~= s);
    } else {
        assert forall|j: int| 0 <= j < k - 1 implies is_ws(#[trigger] s.drop_first()[j]) by {
            assert(s.drop_first()[j] == s[j + 1]);
        }
        if k - 1 < s.drop_first().len() {
            assert(s.drop_first()[k - 1] == s[k]);
        }
        lemma_trim_start_at(s.drop_first(), k - 1);
        assert(s.drop_first().skip(k - 1) =~= s.skip(k));
    }
}

/// A characterisation of `trim_end` by positions.
pub proof fn lemma_trim_end_at(s: Seq<char>, k: int)
    requires
        0 <= k <= s.len(),
        forall|j: int| k <= j < s.len() ==> is_ws(#[trigger] s[j]),
        k == 0 || !is_ws(s[k - 1]),
    ensures
        trim_end(s) == s.take(k),
    decreases s.len() - k,
{
    if k == s.len() {
        assert(s.take(k) =~= s);
    } else {
        assert forall|j: int| k <= j < s.drop_last().len() implies is_ws(
            #[trigger] s.drop_last()[j],
        ) by {
            assert(s.drop_last()[j] == s[j]);
        }
        if k > 0 {
            assert(s.drop_last()[k - 1] == s[k - 1]);
        }
        lemma_trim_end_at(s.drop_last(), k);
        assert(s.drop_last().take(k) =~= s.take(k));
    }
}


/// The value of a digit string does not decrease when digits are appended.
pub proof fn lemma_digits_value_prefix(s: Seq<char>, k: int)
    requires
        0 <= k <= s.len(),
    ensures
        digits_value(s.take(k)) <= digits_value(s),
    decreases s.len() - k,
{
    if k < s.len() {
        lemma_digits_value_prefix(s, k + 1);
        assert(s.take(k + 1).drop_last() =~= s.take(k));
    } else {
        assert(s.take(k) =~= s);
    }
}

/// `split_char` unfolds at the first separator.
pub proof fn lemma_split_step(s: Seq<char>, c: char, k: int)
    requires
        0 <= k < s.len(),
        s[k] == c,
        forall|j: int| 0 <= j < k ==> s[j] != c,
    ensures
        pieces(s, c) == seq![s.take(k)] + pieces(s.skip(k + 1), c),
{
    lemma_index_of_unique(s, c, k);
}

/// `split_char` always yields at least one piece.
pub proof fn lemma_split_nonempty(s: Seq<char>, c: char)
    ensures
        pieces(s, c).len() > 0,
    decreases s.len(),
{
    lemma_index_of(s, c);
    match first_index(s, c) {
        Some(i) => {
            lemma_split_nonempty(s.skip(i as int + 1), c);
        },
        None => {},
    }
}

/// `split_char` of a text without separators is the text itself.
pub proof fn lemma_split_last(s: Seq<char>, c: char)
    requires
        forall|j: int| 0 <= j < s.len() ==> s[j] != c,
    ensures
        pieces(s, c) == seq![s],
{
    lemma_index_of_none(s, c);
}

/// Pushing onto a vector of character vectors pushes the view.
pub proof fn lemma_views_push(v: Seq<Vec<char>>, x: Vec<char>)
    ensures
        views(v.push(x)) == views(v).push(x@),
{
    assert(views(v.push(x)) =~= views(v).push(x@));
}

// ---------------------------------------------------------------------------
// Executable functions
// ---------------------------------------------------------------------------

/// The characters of a string slice, in order.
pub fn chars_of(s: &str) -> (v: Vec<char>)
    ensures
        v@ == s@,
{
    let mut v: Vec<char> = Vec::new();
    for c in it: s.chars()
        invariant
            v@ == it.seq().take(it.index() as int),
            it.seq() == s@,
    {
        v.push(c);
    }
    v
}

/// A string holding exactly the given characters.
pub fn string_of(v: &[char]) -> (s: String)
    ensures
        s@ == v@,
{
    let mut s = String::new();
    let mut i: usize = 0;
    while i < v.len()
        invariant
            i <= v.len(),
            s@ == v@.take(i as int),
        decreases v.len() - i,
    {
        s.push(v[i]);
        i = i + 1;
        assert(s@ == v@.take(i as int));
    }
    assert(v@.take(v.len() as int) == v@);
    s
}

/// A string with the characters of a literal.
pub fn string_from(s: &str) -> (r: String)
    ensures
        r@ == s@,
{
    let v = chars_of(s);
    string_of(v.as_slice())
}

/// A copy of `s[from..to]`.
pub fn slice_vec(s: &[char], from: usize, to: usize) -> (r: Vec<char>)
    requires
        from <= to <= s.len(),
    ensures
        r@ == s@.subrange(from as int, to as int),
{
    let mut r: Vec<char> = Vec::new();
    let mut i = from;
    while i < to
        invariant
            from <= i <= to <= s.len(),
            r@ == s@.subrange(from as int, i as int),
        decreases to - i,
    {
        r.push(s[i]);
        i = i + 1;
        assert(r@ =~= s@.subrange(from as int, i as int));
    }
    r
}

/// `char::is_whitespace`.
pub fn is_whitespace(c: char) -> (b: bool)
    ensures
        b == is_ws(c),
{
    let u = c as u32;
    (0x9 <= u && u <= 0xd) || u == 0x20 || u == 0x85 || u == 0xa0 || u == 0x1680 || (0x2000 <= u
        && u <= 0x200a) || u == 0x2028 || u == 0x2029 || u == 0x202f || u == 0x205f || u == 0x3000
}

/// `str::trim`.
pub fn trim(s: &[char]) -> (r: Vec<char>)
    ensures
        r@ == trimmed(s@),
{
    let mut a: usize = 0;
    while a < s.len() && is_whitespace(s[a])
        invariant
            a <= s.len(),
            forall|j: int| 0 <= j < a ==> is_ws(#[trigger] s@[j]),
        decreases s.len() - a,
    {
        a = a + 1;
    }
    proof {
        lemma_trim_start_at(s@, a as int);
    }
    let mut b: usize = s.len();
    while b > a && is_whitespace(s[b - 1])
        invariant
            a <= b <= s.len(),
            forall|j: int| b <= j < s.len() ==> is_ws(#[trigger] s@[j]),
        decreases b,
    {
        b = b - 1;
    }
    let ghost t = s@.skip(a as int);
    proof {
        assert forall|j: int| b - a <= j < t.len() implies is_ws(#[trigger] t[j]) by {
            assert(t[j] == s@[j + a]);
        }
        if b > a {
            assert(t[b - a - 1] == s@[b - 1]);
        }
        lemma_trim_end_at(t, b - a);
        assert(t.take(b - a) =~= s@.subrange(a as int, b as int));
    }
    slice_vec(s, a, b)
}

/// `str::trim_matches(c)` for a single character.
pub fn trim_matches(s: &[char], c: char) -> (r: Vec<char>)
    ensures
        r@ == trim_char(s@, c),
{
    let mut a: usize = 0;
    assert(s@.skip(0) =~= s@);
    while a < s.len() && s[a] == c
        invariant
            a <= s.len(),
            trim_start_char(s@, c) == trim_start_char(s@.skip(a as int), c),
        decreases s.len() - a,
    {
        assert(s@.skip(a as int).drop_first() =~= s@.skip(a + 1));
        a = a + 1;
    }
    let ghost t = s@.skip(a as int);
    assert(trim_start_char(t, c) == t);
    let mut b: usize = s.len();
    while b > a && s[b - 1] == c
        invariant
            a <= b <= s.len(),
            t == s@.skip(a as int),
            trim_end_char(t, c) == trim_end_char(s@.subrange(a as int, b as int), c),
        decreases b,
    {
        assert(s@.subrange(a as int, b as int).drop_last() =~= s@.subrange(a as int, b - 1));
        b = b - 1;
    }
    assert(s@.skip(a as int) =~= s@.subrange(a as int, s.len() as int));
    slice_vec(s, a, b)
}

/// `str::starts_with`.
pub fn starts_with(s: &[char], p: &[char]) -> (b: bool)
    ensures
        b == has_prefix(s@, p@),
{
    if p.len() > s.len() {
        return false;
    }
    let mut i: usize = 0;
    while i < p.len()
        invariant
            p.len() <= s.len(),
            i <= p.len(),
            forall|j: int| 0 <= j < i ==> s@[j] == p@[j],
        decreases p.len() - i,
    {
        if s[i] != p[i] {
            assert(s@.subrange(0, p.len() as int)[i as int] != p@[i as int]);
            return false;
        }
        i = i + 1;
    }
    assert(s@.subrange(0, p.len() as int) =~= p@);
    true
}

/// `str::ends_with`.
pub fn ends_with(s: &[char], p: &[char]) -> (b: bool)
    ensures
        b == has_suffix(s@, p@),
{
    if p.len() > s.len() {
        return false;
    }
    let off = s.len() - p.len();
    let mut i: usize = 0;
    while i < p.len()
        invariant
            p.len() <= s.len(),
            off == s.len() - p.len(),
            i <= p.len(),
            forall|j: int| 0 <= j < i ==> s@[off + j] == p@[j],
        decreases p.len() - i,
    {
        if s[off + i] != p[i] {
            assert(s@.subrange(off as int, s.len() as int)[i as int] != p@[i as int]);
            return false;
        }
        i = i + 1;
    }
    assert(s@.subrange(off as int, s.len() as int) =~= p@);
    true
}

/// Whether `p` occurs in `s` at `i`.
pub fn occurs_at(s: &[char], p: &[char], i: usize) -> (b: bool)
    ensures
        b == occurs(s@, p@, i as int),
{
    if p.len() > s.len() || i > s.len() - p.len() {
        return false;
    }
    let mut k: usize = 0;
    while k < p.len()
        invariant
            i + p.len() <= s.len(),
            k <= p.len(),
            forall|j: int| 0 <= j < k ==> s@[i + j] == p@[j],
        decreases p.len() - k,
    {
        if s[i + k] != p[k] {
            assert(s@.subrange(i as int, i + p.len())[k as int] != p@[k as int]);
            return false;
        }
        k = k + 1;
    }
    assert(s@.subrange(i as int, i + p.len()) =~= p@);
    true
}

/// `str::contains` with a string pattern.
pub fn contains(s: &[char], p: &[char]) -> (b: bool)
    ensures
        b == has_sub(s@, p@),
{
    if p.len() > s.len() {
        return false;
    }
    let mut i: usize = 0;
    loop
        invariant
            p.len() <= s.len(),
            i <= s.len() - p.len(),
            forall|j: int| 0 <= j < i ==> !occurs(s@, p@, j),
        ensures
            i == s.len() - p.len(),
            forall|j: int| 0 <= j <= i ==> !occurs(s@, p@, j),
        decreases s.len() - p.len() - i,
    {
        if occurs_at(s, p, i) {
            return true;
        }
        if i == s.len() - p.len() {
            break;
        }
        i = i + 1;
    }
    assert forall|j: int| !occurs(s@, p@, j) by {
        if 0 <= j && j + p@.len() <= s@.len() {
            assert(j <= i);
        }
    }
    false
}

/// `str::contains` with a literal pattern.
pub fn contains_str(s: &[char], p: &str) -> (b: bool)
    ensures
        b == has_sub(s@, p@),
{
    let pv = chars_of(p);
    contains(s, pv.as_slice())
}

/// `str::starts_with` with a literal pattern.
pub fn starts_with_str(s: &[char], p: &str) -> (b: bool)
    ensures
        b == has_prefix(s@, p@),
{
    let pv = chars_of(p);
    starts_with(s, pv.as_slice())
}

/// `str::ends_with` with a literal pattern.
pub fn ends_with_str(s: &[char], p: &str) -> (b: bool)
    ensures
        b == has_suffix(s@, p@),
{
    let pv = chars_of(p);
    ends_with(s, pv.as_slice())
}

/// Equality with a literal.
pub fn eq_str(s: &[char], p: &str) -> (b: bool)
    ensures
        b == (s@ == p@),
{
    let pv = chars_of(p);
    if s.len() != pv.len() {
        return false;
    }
    let b = starts_with(s, pv.as_slice());
    assert(s@ =~= s@.subrange(0, pv@.len() as int));
    b
}

/// Equality of two character slices.
pub fn eq_chars(s: &[char], p: &[char]) -> (b: bool)
    ensures
        b == (s@ == p@),
{
    if s.len() != p.len() {
        return false;
    }
    let b = starts_with(s, p);
    assert(s@ =~= s@.subrange(0, p@.len() as int));
    b
}

/// `str::find` with a character pattern.
pub fn index_of(s: &[char], c: char) -> (r: Option<usize>)
    ensures
        r matches Some(i) ==> first_index(s@, c) == Some(i as nat),
        r is None ==> first_index(s@, c) is None,
{
    let mut i: usize = 0;
    while i < s.len()
        invariant
            i <= s.len(),
            forall|j: int| 0 <= j < i ==> s@[j] != c,
        decreases s.len() - i,
    {
        if s[i] == c {
            proof {
                lemma_index_of_unique(s@, c, i as int);
            }
            return Some(i);
        }
        i = i + 1;
    }
    proof {
        lemma_index_of_none(s@, c);
    }
    None
}


/// The first index at or after `from` that holds `c`.
pub fn index_of_from(s: &[char], c: char, from: usize) -> (r: Option<usize>)
    requires
        from <= s.len(),
    ensures
        r matches Some(k) ==> from <= k < s.len() && s@[k as int] == c && forall|j: int|
            from <= j < k ==> s@[j] != c,
        r is None ==> forall|j: int| from <= j < s.len() ==> s@[j] != c,
{
    let mut i = from;
    while i < s.len()
        invariant
            from <= i <= s.len(),
            forall|j: int| from <= j < i ==> s@[j] != c,
        decreases s.len() - i,
    {
        if s[i] == c {
            return Some(i);
        }
        i = i + 1;
    }
    None
}

/// `str::split(c)`.
pub fn split_char(s: &[char], c: char) -> (r: Vec<Vec<char>>)
    ensures
        views(r@) == pieces(s@, c),
{
    let mut r: Vec<Vec<char>> = Vec::new();
    let mut start: usize = 0;
    assert(s@.skip(0) =~= s@);
    loop
        invariant
            start <= s.len(),
            views(r@) + pieces(s@.skip(start as int), c) == pieces(s@, c),
        decreases s.len() - start,
    {
        let ghost rest = s@.skip(start as int);
        match index_of_from(s, c, start) {
            Some(k) => {
                let piece = slice_vec(s, start, k);
                proof {
                    assert forall|j: int| 0 <= j < k - start implies rest[j] != c by {
                        assert(rest[j] == s@[start + j]);
                    }
                    lemma_split_step(rest, c, k - start);
                    assert(rest.take(k - start) =~= piece@);
                    assert(rest.skip(k - start + 1) =~= s@.skip(k + 1));
                    lemma_views_push(r@, piece);
                    assert(views(r@.push(piece)) + pieces(s@.skip(k + 1), c) =~= views(r@)
                        + pieces(rest, c));
                }
                r.push(piece);
                start = k + 1;
            },
            None => {
                let piece = slice_vec(s, start, s.len());
                proof {
                    assert forall|j: int| 0 <= j < rest.len() implies rest[j] != c by {
                        assert(rest[j] == s@[start + j]);
                    }
                    lemma_split_last(rest, c);
                    assert(rest =~= piece@);
                    lemma_views_push(r@, piece);
                    assert(views(r@.push(piece)) =~= views(r@) + pieces(rest, c));
                }
                r.push(piece);
                return r;
            },
        }
    }
}

/// `str::splitn(2, c)` as an option of the two halves.
pub fn split_once(s: &[char], c: char) -> (r: Option<(Vec<char>, Vec<char>)>)
    ensures
        match halves(s@, c) {
            Some((a, b)) => r matches Some((x, y)) && x@ == a && y@ == b,
            None => r is None,
        },
{
    match index_of(s, c) {
        Some(k) => {
            proof {
                lemma_index_of(s@, c);
            }
            assert(k < s.len());
            let a = slice_vec(s, 0, k);
            let b = slice_vec(s, k + 1, s.len());
            assert(a@ =~= s@.take(k as int));
            assert(b@ =~= s@.skip(k + 1));
            Some((a, b))
        },
        None => None,
    }
}

/// Removes one trailing carriage return.
pub fn strip_cr(l: &[char]) -> (r: Vec<char>)
    ensures
        r@ == without_cr(l@),
{
    if l.len() > 0 && l[l.len() - 1] == '\r' {
        slice_vec(l, 0, l.len() - 1)
    } else {
        slice_vec(l, 0, l.len())
    }
}

/// `str::lines`.
pub fn lines(s: &[char]) -> (r: Vec<Vec<char>>)
    ensures
        views(r@) == line_seq(s@),
{
    let parts = split_char(s, '\n');
    let ghost ps = pieces(s@, '\n');
    assert(views(parts@).len() == parts@.len());
    let n = parts.len();
    assert(n > 0) by {
        lemma_split_nonempty(s@, '\n');
    }
    let mut r: Vec<Vec<char>> = Vec::new();
    let mut i: usize = 0;
    while i + 1 < n
        invariant
            n == parts.len(),
            n > 0,
            i < n,
            views(parts@) == ps,
            views(r@) == ps.drop_last().take(i as int).map_values(|l: Seq<char>| without_cr(l)),
        decreases n - i,
    {
        let l = strip_cr(parts[i].as_slice());
        proof {
            assert(parts@[i as int]@ == ps[i as int]);
            lemma_views_push(r@, l);
            assert(ps.drop_last().take(i + 1).map_values(|l: Seq<char>| without_cr(l)) =~= ps.drop_last().take(i as int).map_values(|l: Seq<char>| without_cr(l)).push(without_cr(ps[i as int])));
        }
        r.push(l);
        i = i + 1;
    }
    assert(ps.drop_last().take(i as int) =~= ps.drop_last());
    assert(parts@[n - 1]@ == ps.last());
    if parts[n - 1].len() == 0 {
        r
    } else {
        let last = slice_vec(parts[n - 1].as_slice(), 0, parts[n - 1].len());
        assert(last@ =~= ps.last());
        proof {
            lemma_views_push(r@, last);
        }
        r.push(last);
        r
    }
}

/// Index of the first whitespace character at or after `from`, or the end.
fn word_end(s: &[char], from: usize) -> (r: usize)
    requires
        from <= s.len(),
    ensures
        from <= r <= s.len(),
        forall|j: int| from <= j < r ==> !is_ws(#[trigger] s@[j]),
        r < s.len() ==> is_ws(s@[r as int]),
{
    let mut i = from;
    while i < s.len() && !is_whitespace(s[i])
        invariant
            from <= i <= s.len(),
            forall|j: int| from <= j < i ==> !is_ws(#[trigger] s@[j]),
        decreases s.len() - i,
    {
        i = i + 1;
    }
    i
}

/// Index of the first non-whitespace character at or after `from`, or the end.
fn skip_ws(s: &[char], from: usize) -> (r: usize)
    requires
        from <= s.len(),
    ensures
        from <= r <= s.len(),
        forall|j: int| from <= j < r ==> is_ws(#[trigger] s@[j]),
        r < s.len() ==> !is_ws(s@[r as int]),
{
    let mut i = from;
    while i < s.len() && is_whitespace(s[i])
        invariant
            from <= i <= s.len(),
            forall|j: int| from <= j < i ==> is_ws(#[trigger] s@[j]),
        decreases s.len() - i,
    {
        i = i + 1;
    }
    i
}

/// `word_prefix` stops at the first whitespace character.
pub proof fn lemma_word_prefix_at(s: Seq<char>, k: int)
    requires
        0 <= k <= s.len(),
        forall|j: int| 0 <= j < k ==> !is_ws(#[trigger] s[j]),
        k == s.len() || is_ws(s[k]),
    ensures
        word_prefix(s) == s.take(k),
    decreases k,
{
    if k == 0 {
        assert(s.take(0) =~= Seq::<char>::empty());
    } else {
        assert forall|j: int| 0 <= j < k - 1 implies !is_ws(#[trigger] s.drop_first()[j]) by {
            assert(s.drop_first()[j] == s[j + 1]);
        }
        if k - 1 < s.drop_first().len() {
            assert(s.drop_first()[k - 1] == s[k]);
        }
        lemma_word_prefix_at(s.drop_first(), k - 1);
        assert(seq![s[0]] + s.drop_first().take(k - 1) =~= s.take(k));
    }
}

/// `str::split_whitespace`.
pub fn split_whitespace(s: &[char]) -> (r: Vec<Vec<char>>)
    ensures
        views(r@) == words(s@),
{
    let mut r: Vec<Vec<char>> = Vec::new();
    let mut pos: usize = 0;
    assert(s@.skip(0) =~= s@);
    loop
        invariant
            pos <= s.len(),
            views(r@) + words(s@.skip(pos as int)) == words(s@),
        decreases s.len() - pos,
    {
        let ghost rest = s@.skip(pos as int);
        let a = skip_ws(s, pos);
        proof {
            assert forall|j: int| 0 <= j < a - pos implies is_ws(#[trigger] rest[j]) by {
                assert(rest[j] == s@[pos + j]);
            }
            if a < s.len() {
                assert(rest[a - pos] == s@[a as int]);
            }
            lemma_trim_start_at(rest, a - pos);
        }
        if a == s.len() {
            assert(views(r@) + words(rest) =~= views(r@));
            return r;
        }
        let b = word_end(s, a);
        let word = slice_vec(s, a, b);
        proof {
            let t = rest.skip(a - pos);
            assert forall|j: int| 0 <= j < b - a implies !is_ws(#[trigger] t[j]) by {
                assert(t[j] == s@[a + j]);
            }
            if b < s.len() {
                assert(t[b - a] == s@[b as int]);
            }
            lemma_word_prefix_at(t, b - a);
            assert(t.take(b - a) =~= word@);
            assert(t.skip(b - a) =~= s@.skip(b as int));
            assert(word@.len() > 0);
            lemma_views_push(r@, word);
            assert(views(r@.push(word)) + words(s@.skip(b as int)) =~= views(r@)
                + words(rest));
        }
        r.push(word);
        pos = b;
    }
}

/// The decimal character of a digit value.
pub fn digit_char(d: u64) -> (c: char)
    requires
        d < 10,
    ensures
        c == digit_of(d as nat),
{
    if d == 0 {
        '0'
    } else if d == 1 {
        '1'
    } else if d == 2 {
        '2'
    } else if d == 3 {
        '3'
    } else if d == 4 {
        '4'
    } else if d == 5 {
        '5'
    } else if d == 6 {
        '6'
    } else if d == 7 {
        '7'
    } else if d == 8 {
        '8'
    } else {
        '9'
    }
}

/// The decimal digits of `n`, as `n.to_string()` prints them.
pub fn decimal(n: u64) -> (r: Vec<char>)
    ensures
        r@ == decimal_digits(n as nat),
    decreases n,
{
    if n < 10 {
        let mut r = Vec::new();
        r.push(digit_char(n));
        r
    } else {
        let mut r = decimal(n / 10);
        r.push(digit_char(n % 10));
        r
    }
}

/// Appends the characters of `b` to `a`.
pub fn append_chars(a: &mut Vec<char>, b: &[char])
    ensures
        final(a)@ == old(a)@ + b@,
{
    let mut i: usize = 0;
    let ghost a0 = a@;
    while i < b.len()
        invariant
            i <= b.len(),
            a@ == a0 + b@.take(i as int),
        decreases b.len() - i,
    {
        a.push(b[i]);
        i = i + 1;
        assert(a@ =~= a0 + b@.take(i as int));
    }
    assert(b@.take(b.len() as int) =~= b@);
}

/// Appends the characters of a literal to `a`.
pub fn append_str(a: &mut Vec<char>, b: &str)
    ensures
        final(a)@ == old(a)@ + b@,
{
    let bv = chars_of(b);
    append_chars(a, bv.as_slice());
}

/// `s.parse::<i64>()`.
pub fn parse_i64(s: &[char]) -> (r: Option<i64>)
    ensures
        r == parse_i64_spec(s@),
{
    if s.len() == 0 {
        return None;
    }
    let neg = s[0] == '-';
    let start: usize = if s[0] == '-' || s[0] == '+' {
        1
    } else {
        0
    };
    let ghost d = s@.skip(start as int);
    assert(d =~= (if s@[0] == '-' || s@[0] == '+' {
        s@.drop_first()
    } else {
        s@
    }));
    if start == s.len() {
        return None;
    }
    let mut v: u64 = 0;
    let mut i = start;
    while i < s.len()
        invariant
            start <= i <= s.len(),
            start < s.len(),
            d == s@.skip(start as int),
            d == (if s@[0] == '-' || s@[0] == '+' {
                s@.drop_first()
            } else {
                s@
            }),
            neg == (s@[0] == '-'),
            d.len() > 0,
            all_digits(d.take(i - start)),
            v == digits_value(d.take(i - start)),
            v <= 0x8000_0000_0000_0000u64,
        decreases s.len() - i,
    {
        let ch = s[i];
        if !('0' <= ch && ch <= '9') {
            assert(d[i - start] == ch);
            assert(!all_digits(d));
            assert(int_value(s@) is None);
            return None;
        }
        let dv = (ch as u32 - '0' as u32) as u64;
        assert(d.take(i - start + 1).drop_last() =~= d.take(i - start));
        assert(d.take(i - start + 1).last() == ch);
        if v > (0x8000_0000_0000_0000u64 - dv) / 10 {
            proof {
                assert(digits_value(d.take(i - start + 1)) > 0x8000_0000_0000_0000u64) by (nonlinear_arith)
                    requires
                        v > (0x8000_0000_0000_0000u64 - dv) / 10,
                        digits_value(d.take(i - start + 1)) == v * 10 + dv,
                        dv < 10,
                ;
                if all_digits(d) {
                    lemma_digits_value_prefix(d, i - start + 1);
                    assert(digits_value(d) > 0x8000_0000_0000_0000u64);
                }
                assert(parse_i64_spec(s@) is None);
            }
            return None;
        }
        v = v * 10 + dv;
        i = i + 1;
    }
    assert(d.take(i - start) =~= d);
    if neg {
        if v == 0x8000_0000_0000_0000u64 {
            Some(i64::MIN)
        } else {
            Some(-(v as i64))
        }
    } else {
        if v > 0x7fff_ffff_ffff_ffffu64 {
            None
        } else {
            Some(v as i64)
        }
    }
}

// ---------------------------------------------------------------------------
// Patterns: repeated prefixes and suffixes, replacement, joining
// ---------------------------------------------------------------------------

/// `str::trim_start_matches` with a non-empty string pattern: drops every
/// leading copy of `p`.
pub open spec fn strip_prefix_all(s: Seq<char>, p: Seq<char>) -> Seq<char>
    decreases s.len(),
{
    if p.len() > 0 && has_prefix(s, p) {
        strip_prefix_all(s.skip(p.len() as int), p)
    } else {
        s
    }
}

/// `str::trim_end_matches` with a non-empty string pattern: drops every
/// trailing copy of `p`.
pub open spec fn strip_suffix_all(s: Seq<char>, p: Seq<char>) -> Seq<char>
    decreases s.len(),
{
    if p.len() > 0 && has_suffix(s, p) {
        strip_suffix_all(s.take(s.len() - p.len()), p)
    } else {
        s
    }
}

/// `str::replace` with a non-empty pattern: each occurrence of `p`, taken
/// from left to right without overlap, becomes `r`.
pub open spec fn replace_all(s: Seq<char>, p: Seq<char>, r: Seq<char>) -> Seq<char>
    decreases s.len(),
{
    if s.len() == 0 {
        s
    } else if p.len() > 0 && has_prefix(s, p) {
        r + replace_all(s.skip(p.len() as int), p, r)
    } else {
        seq![s[0]] + replace_all(s.skip(1), p, r)
    }
}

/// `[..].join(sep)`: the parts with `sep` between each two.
pub open spec fn join_with(parts: Seq<Seq<char>>, sep: Seq<char>) -> Seq<char>
    decreases parts.len(),
{
    if parts.len() == 0 {
        Seq::empty()
    } else if parts.len() == 1 {
        parts[0]
    } else {
        join_with(parts.drop_last(), sep) + sep + parts.last()
    }
}

/// Drops every leading copy of a non-empty pattern.
pub fn trim_start_matches_str(s: &[char], p: &str) -> (r: Vec<char>)
    ensures
        r@ == strip_prefix_all(s@, p@),
{
    let pv = chars_of(p);
    let mut start: usize = 0;
    assert(s@.skip(0) =~= s@);
    if pv.len() == 0 {
        return slice_vec(s, 0, s.len());
    }
    loop
        invariant
            start <= s.len(),
            pv@ == p@,
            pv@.len() > 0,
            strip_prefix_all(s@.skip(start as int), p@) == strip_prefix_all(s@, p@),
        decreases s.len() - start,
    {
        let rest = slice_vec(s, start, s.len());
        assert(rest@ =~= s@.skip(start as int));
        if starts_with(rest.as_slice(), pv.as_slice()) {
            assert(s@.skip(start as int).skip(pv@.len() as int) =~= s@.skip(start + pv@.len()));
            start = start + pv.len();
        } else {
            return rest;
        }
    }
}

/// Drops every trailing copy of a non-empty pattern.
pub fn trim_end_matches_str(s: &[char], p: &str) -> (r: Vec<char>)
    ensures
        r@ == strip_suffix_all(s@, p@),
{
    let pv = chars_of(p);
    let mut end: usize = s.len();
    assert(s@.take(s.len() as int) =~= s@);
    if pv.len() == 0 {
        return slice_vec(s, 0, s.len());
    }
    loop
        invariant
            end <= s.len(),
            pv@ == p@,
            pv@.len() > 0,
            strip_suffix_all(s@.take(end as int), p@) == strip_suffix_all(s@, p@),
        decreases end,
    {
        let rest = slice_vec(s, 0, end);
        assert(rest@ =~= s@.take(end as int));
        if ends_with(rest.as_slice(), pv.as_slice()) {
            assert(s@.take(end as int).take(end - pv@.len()) =~= s@.take(end - pv@.len()));
            end = end - pv.len();
        } else {
            return rest;
        }
    }
}

/// Replaces each occurrence of a non-empty pattern, from left to right.
pub fn replace_str(s: &[char], p: &str, r: &[char]) -> (out: Vec<char>)
    requires
        p@.len() > 0,
    ensures
        out@ == replace_all(s@, p@, r@),
{
    let pv = chars_of(p);
    let mut out: Vec<char> = Vec::new();
    let mut i: usize = 0;
    assert(s@.skip(0) =~= s@);
    while i < s.len()
        invariant
            i <= s.len(),
            pv@ == p@,
            pv@.len() > 0,
            out@ + replace_all(s@.skip(i as int), p@, r@) == replace_all(s@, p@, r@),
        decreases s.len() - i,
    {
        let ghost rest = s@.skip(i as int);
        if pv.len() <= s.len() - i && occurs_at(s, pv.as_slice(), i) {
            proof {
                assert(rest.subrange(0, p@.len() as int) =~= s@.subrange(i as int, i + p@.len()));
                assert(has_prefix(rest, p@));
                assert(rest.skip(p@.len() as int) =~= s@.skip(i + p@.len()));
            }
            let ghost before = out@;
            append_chars(&mut out, r);
            assert(before + (r@ + replace_all(rest.skip(p@.len() as int), p@, r@)) =~= out@
                + replace_all(s@.skip(i + p@.len()), p@, r@));
            i = i + pv.len();
        } else {
            proof {
                if has_prefix(rest, p@) {
                    assert(rest.subrange(0, p@.len() as int) =~= s@.subrange(i as int, i + p@.len()));
                }
                assert(rest.skip(1) =~= s@.skip(i + 1));
            }
            let ghost before = out@;
            out.push(s[i]);
            assert(before + (seq![rest[0]] + replace_all(rest.skip(1), p@, r@)) =~= out@
                + replace_all(s@.skip(i + 1), p@, r@));
            i = i + 1;
        }
    }
    assert(replace_all(s@.skip(i as int), p@, r@) =~= Seq::<char>::empty());
    assert(out@ + Seq::<char>::empty() =~= out@);
    out
}

/// Joins parts with a separator.
pub fn join_str(parts: &[Vec<char>], sep: &str) -> (r: Vec<char>)
    ensures
        r@ == join_with(views(parts@), sep@),
{
    let mut r: Vec<char> = Vec::new();
    let mut i: usize = 0;
    while i < parts.len()
        invariant
            i <= parts.len(),
            r@ == join_with(views(parts@).take(i as int), sep@),
        decreases parts.len() - i,
    {
        proof {
            assert(views(parts@).take(i + 1).drop_last() =~= views(parts@).take(i as int));
        }
        if i > 0 {
            append_str(&mut r, sep);
        }
        append_chars(&mut r, parts[i].as_slice());
        i = i + 1;
        proof {
            if i == 1 {
                assert(views(parts@).take(0) =~= Seq::<Seq<char>>::empty());
            }
        }
    }
    assert(views(parts@).take(parts.len() as int) =~= views(parts@));
    r
}

/// The vectors from position `from` on, copied.
pub fn slice_vec_of_vecs(s: &[Vec<char>], from: usize) -> (r: Vec<Vec<char>>)
    requires
        from <= s@.len(),
    ensures
        views(r@) == views(s@).skip(from as int),
{
    let mut r: Vec<Vec<char>> = Vec::new();
    let mut i = from;
    while i < s.len()
        invariant
            from <= i <= s@.len(),
            views(r@) == views(s@).subrange(from as int, i as int),
        decreases s@.len() - i,
    {
        let v = slice_vec(s[i].as_slice(), 0, s[i].len());
        assert(v@ =~= s@[i as int]@);
        let ghost before = r@;
        r.push(v);
        proof {
            lemma_views_push(before, v);
        }
        i = i + 1;
        assert(views(r@) =~= views(s@).subrange(from as int, i as int));
    }
    assert(views(s@).subrange(from as int, s@.len() as int) =~= views(s@).skip(from as int));
    r
}

/// What `s.parse::<u8>()` returns, as an option.
pub open spec fn parse_u8_spec(s: Seq<char>) -> Option<u8> {
    match parse_u64_spec(s) {
        Some(v) => if v <= 255 {
            Some(v as u8)
        } else {
            None
        },
        None => None,
    }
}

/// `s.parse::<u8>()`.
#[verifier::rlimit(40)]
#[verifier::spinoff_prover]
pub fn parse_u8(s: &[char]) -> (r: Option<u8>)
    ensures
        r == parse_u8_spec(s@),
{
    if s.len() == 0 {
        return None;
    }
    let start: usize = if s[0] == '+' {
        1
    } else {
        0
    };
    let ghost d = if s@[0] == '+' {
        s@.drop_first()
    } else {
        s@
    };
    assert(d =~= s@.skip(start as int));
    if start == s.len() {
        return None;
    }
    let mut v: u64 = 0;
    let mut i: usize = start;
    while i < s.len()
        invariant
            start <= i <= s.len(),
            d =~= s@.skip(start as int),
            s@.len() > 0,
            d == (if s@[0] == '+' {
                s@.drop_first()
            } else {
                s@
            }),
            d.len() > 0,
            v <= 255,
            all_digits(d.take(i - start)),
            v == digits_value(d.take(i - start)),
        decreases s.len() - i,
    {
        let c = s[i];
        if !('0' <= c && c <= '9') {
            proof {
                assert(d[i - start] == c);
                assert(!all_digits(d));
            }
            return None;
        }
        let dv = (c as u64) - ('0' as u64);
        proof {
            assert(d.take(i - start + 1).drop_last() =~= d.take(i - start));
            assert(d.take(i - start + 1).last() == c);
        }
        v = v * 10 + dv;
        i = i + 1;
        if v > 255 {
            proof {
                assert(all_digits(d.take(i - start)));
                if all_digits(d) {
                    lemma_digits_value_prefix(d, i - start);
                }
            }
            return None;
        }
    }
    assert(d.take(i - start) =~= d);
    Some(v as u8)
}

} // verus!
