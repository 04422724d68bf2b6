//! Text functions over the characters of a string: case folding, trimming,
//! searching, splitting, and decimal numbers.
//!
//! Every function here has an exact contract over `Seq<char>`; the spec
//! functions are the vocabulary in which the other modules state theirs.
use vstd::prelude::*;
use vstd::string::*;

verus! {

// ---------------------------------------------------------------------------
// Building strings
// ---------------------------------------------------------------------------
/// `String::push` of std: the character is appended at the end.
pub assume_specification[ String::push ](s: &mut String, c: char)
    ensures
        final(s)@ == old(s)@.push(c),
;

/// The characters of a string, in order.
pub fn chars_of(s: &str) -> (out: Vec<char>)
    ensures
        out@ == s@,
{
    let mut out: Vec<char> = Vec::new();
    for c in it: s.chars()
        invariant
            out@ == it.seq().take(it.index() as int),
            it.seq() == s@,
    {
        out.push(c);
        assert(it.seq().take(it.index() + 1) == it.seq().take(it.index() as int).push(c));
    }
    assert(s@.take(s@.len() as int) == s@);
    out
}

/// Whether two strings hold the same characters.
pub fn same(a: &str, b: &str) -> (r: bool)
    ensures
        r == (a@ == b@),
{
    a.to_owned() == b.to_owned()
}

/// The characters of a text, where there is one.
pub open spec fn opt_str(a: Option<&str>) -> Option<Seq<char>> {
    match a {
        Some(t) => Some(t@),
        None => None,
    }
}

/// The text of its own, where there is one.
pub fn own_option(a: Option<&str>) -> (r: Option<String>)
    ensures
        opt_text(r) == opt_str(a),
{
    match a {
        Some(t) => Some(t.to_owned()),
        None => None,
    }
}

/// The characters of an optional string.
pub open spec fn opt_text(a: Option<String>) -> Option<Seq<char>> {
    match a {
        Some(s) => Some(s@),
        None => None,
    }
}

/// Whether an optional string is present and holds the characters of `b`.
pub fn is_some_text(a: &Option<String>, b: &str) -> (r: bool)
    ensures
        r == (opt_text(*a) == Some(b@)),
{
    match a {
        Some(s) => same(s.as_str(), b),
        None => false,
    }
}

/// A copy of an optional string.
pub fn copy_option(a: &Option<String>) -> (r: Option<String>)
    ensures
        r == *a,
{
    match a {
        Some(s) => Some(s.clone()),
        None => None,
    }
}

/// `a` followed by `b`.
pub fn join(a: &str, b: &str) -> (r: String)
    ensures
        r@ == a@ + b@,
{
    let mut out = a.to_owned();
    out.append(b);
    out
}

/// `a`, `b` and `c`, one after the other.
pub fn join3(a: &str, b: &str, c: &str) -> (r: String)
    ensures
        r@ == a@ + b@ + c@,
{
    let mut out = join(a, b);
    out.append(c);
    out
}

// ---------------------------------------------------------------------------
// ASCII case
// ---------------------------------------------------------------------------
/// The ASCII lower-case form of a character.
pub open spec fn lower_char(c: char) -> char {
    if 'A' <= c && c <= 'Z' {
        (c as u8 + 32) as char
    } else {
        c
    }
}

/// The ASCII upper-case form of a character.
pub open spec fn upper_char(c: char) -> char {
    if 'a' <= c && c <= 'z' {
        (c as u8 - 32) as char
    } else {
        c
    }
}

/// A text with every ASCII letter in lower case.
pub open spec fn lower(s: Seq<char>) -> Seq<char> {
    Seq::new(s.len(), |i: int| lower_char(s[i]))
}

/// A text with every ASCII letter in upper case.
pub open spec fn upper(s: Seq<char>) -> Seq<char> {
    Seq::new(s.len(), |i: int| upper_char(s[i]))
}

/// The ASCII lower-case form of a text.
pub fn to_lower(s: &str) -> (r: String)
    ensures
        r@ == lower(s@),
{
    let v = chars_of(s);
    let mut out = String::new();
    for i in 0..v.len()
        invariant
            v@ == s@,
            out@ == lower(s@).take(i as int),
    {
        let c = v[i];
        if 'A' <= c && c <= 'Z' {
            out.push((c as u8 + 32) as char);
        } else {
            out.push(c);
        }
        assert(lower(s@).take(i + 1) == lower(s@).take(i as int).push(lower(s@)[i as int]));
    }
    assert(lower(s@).take(s@.len() as int) == lower(s@));
    out
}

/// The ASCII upper-case form of a text.
pub fn to_upper(s: &str) -> (r: String)
    ensures
        r@ == upper(s@),
{
    let v = chars_of(s);
    let mut out = String::new();
    for i in 0..v.len()
        invariant
            v@ == s@,
            out@ == upper(s@).take(i as int),
    {
        let c = v[i];
        if 'a' <= c && c <= 'z' {
            out.push((c as u8 - 32) as char);
        } else {
            out.push(c);
        }
        assert(upper(s@).take(i + 1) == upper(s@).take(i as int).push(upper(s@)[i as int]));
    }
    assert(upper(s@).take(s@.len() as int) == upper(s@));
    out
}

// ---------------------------------------------------------------------------
// Trimming
// ---------------------------------------------------------------------------
/// A class of characters that a text can be trimmed of.
#[derive(Clone, Copy)]
pub enum CharClass {
    /// Unicode `White_Space`.
    Whitespace,
    /// `<` and `>`.
    AngleBracket,
    /// `.`, `,` and `;`.
    ClosingPunctuation,
    /// Everything but `0` to `9`.
    NonDigit,
}

/// The characters with the Unicode property `White_Space`.
pub open spec fn is_white(c: char) -> bool {
    let n = c as u32;
    ||| 0x9 <= n <= 0xd
    ||| n == 0x20
    ||| n == 0x85
    ||| n == 0xa0
    ||| n == 0x1680
    ||| 0x2000 <= n <= 0x200a
    ||| n == 0x2028
    ||| n == 0x2029
    ||| n == 0x202f
    ||| n == 0x205f
    ||| n == 0x3000
}

/// The decimal digits `0` to `9`.
pub open spec fn is_digit(c: char) -> bool {
    '0' <= c && c <= '9'
}

impl CharClass {
    /// Whether the class holds a character.
    pub open spec fn holds(self, c: char) -> bool {
        match self {
            CharClass::Whitespace => is_white(c),
            CharClass::AngleBracket => c == '<' || c == '>',
            CharClass::ClosingPunctuation => c == '.' || c == ',' || c == ';',
            CharClass::NonDigit => !is_digit(c),
        }
    }

    /// Tests a character for membership.
    pub fn has(self, c: char) -> (r: bool)
        ensures
            r == self.holds(c),
    {
        match self {
            CharClass::Whitespace => {
                let n: u32 = c as u32;
                (0x9 <= n && n <= 0xd) || n == 0x20 || n == 0x85 || n == 0xa0 || n == 0x1680 || (
                0x2000 <= n && n <= 0x200a) || n == 0x2028 || n == 0x2029 || n == 0x202f || n
                    == 0x205f || n == 0x3000
            },
            CharClass::AngleBracket => c == '<' || c == '>',
            CharClass::ClosingPunctuation => c == '.' || c == ',' || c == ';',
            CharClass::NonDigit => !('0' <= c && c <= '9'),
        }
    }
}

/// A text without its leading characters of a class.
pub open spec fn strip_start(s: Seq<char>, class: CharClass) -> Seq<char>
    decreases s.len(),
{
    if s.len() > 0 && class.holds(s[0]) {
        strip_start(s.skip(1), class)
    } else {
        s
    }
}

/// A text without its trailing characters of a class.
pub open spec fn strip_end(s: Seq<char>, class: CharClass) -> Seq<char>
    decreases s.len(),
{
    if s.len() > 0 && class.holds(s.last()) {
        strip_end(s.drop_last(), class)
    } else {
        s
    }
}

/// A text without the characters of a class at either end.
pub open spec fn strip(s: Seq<char>, class: CharClass) -> Seq<char> {
    strip_end(strip_start(s, class), class)
}

/// A text without surrounding whitespace.
pub open spec fn trimmed(s: Seq<char>) -> Seq<char> {
    strip(s, CharClass::Whitespace)
}

/// `strip_start` removes a prefix.
pub proof fn lemma_strip_start_is_suffix(s: Seq<char>, class: CharClass)
    ensures
        strip_start(s, class).len() <= s.len(),
        strip_start(s, class) == s.skip(s.len() - strip_start(s, class).len()),
    decreases s.len(),
{
    if s.len() > 0 && class.holds(s[0]) {
        lemma_strip_start_is_suffix(s.skip(1), class);
        let n = strip_start(s, class).len();
        assert(s.skip(1).skip(s.len() - 1 - n) == s.skip(s.len() - n));
    } else {
        assert(s.skip(0) == s);
    }
}

/// How many characters `strip_start` removes.
fn leading(v: &[char], class: CharClass) -> (n: usize)
    ensures
        n <= v@.len(),
        strip_start(v@, class) == v@.skip(n as int),
{
    let mut n: usize = 0;
    assert(v@.skip(0) == v@);
    while n < v.len() && class.has(v[n])
        invariant
            n <= v@.len(),
            strip_start(v@, class) == strip_start(v@.skip(n as int), class),
        decreases v@.len() - n,
    {
        assert(v@.skip(n as int).skip(1) == v@.skip(n + 1));
        n += 1;
    }
    n
}

/// How many characters are left once `strip_end` is done.
fn kept(v: &[char], class: CharClass) -> (n: usize)
    ensures
        n <= v@.len(),
        strip_end(v@, class) == v@.take(n as int),
{
    let mut n: usize = v.len();
    assert(v@.take(n as int) == v@);
    while n > 0 && class.has(v[n - 1])
        invariant
            n <= v@.len(),
            strip_end(v@, class) == strip_end(v@.take(n as int), class),
        decreases n,
    {
        assert(v@.take(n as int).drop_last() == v@.take(n - 1));
        n -= 1;
    }
    n
}

/// The part of a text between its leading and its trailing characters of a
/// class.
pub fn strip_text(s: &str, class: CharClass) -> (r: &str)
    ensures
        r@ == strip(s@, class),
{
    let v = chars_of(s);
    let a: usize = leading(v.as_slice(), class);
    let rest = s.substring_char(a, v.len());
    assert(rest@ == s@.skip(a as int));
    let w = chars_of(rest);
    let b: usize = kept(w.as_slice(), class);
    rest.substring_char(0, b)
}

/// A text without its trailing characters of a class.
pub fn strip_end_text(s: &str, class: CharClass) -> (r: &str)
    ensures
        r@ == strip_end(s@, class),
{
    let v = chars_of(s);
    let b: usize = kept(v.as_slice(), class);
    s.substring_char(0, b)
}

/// A text without surrounding whitespace.
pub fn trim(s: &str) -> (r: &str)
    ensures
        r@ == trimmed(s@),
{
    strip_text(s, CharClass::Whitespace)
}

// ---------------------------------------------------------------------------
// Searching
// ---------------------------------------------------------------------------
/// Whether `s` begins with `p`.
pub open spec fn begins(s: Seq<char>, p: Seq<char>) -> bool {
    p.len() <= s.len() && s.take(p.len() as int) == p
}

/// Whether `p` stands in `s` at position `i`.
pub open spec fn stands_at(s: Seq<char>, p: Seq<char>, i: int) -> bool {
    0 <= i && i + p.len() <= s.len() && s.subrange(i, i + p.len()) == p
}

/// Whether `p` stands anywhere in `s`.
pub open spec fn occurs(s: Seq<char>, p: Seq<char>) -> bool {
    exists|i: int| stands_at(s, p, i)
}

/// A text that equals a stretch of another occurs in it.
pub proof fn lemma_occurs_at(s: Seq<char>, p: Seq<char>, i: int)
    requires
        0 <= i,
        i + p.len() <= s.len(),
        forall|k: int| 0 <= k < p.len() ==> s[i + k] == #[trigger] p[k],
    ensures
        stands_at(s, p, i),
        occurs(s, p),
{
    assert(s.subrange(i, i + p.len()) =~= p);
    assert(stands_at(s, p, i));
}

/// Compares a stretch of `v` with `p`.
fn matches_at(v: &[char], p: &[char], i: usize) -> (r: bool)
    requires
        i + p@.len() <= v@.len(),
    ensures
        r == stands_at(v@, p@, i as int),
{
    let size: usize = v.len();
    let mut k: usize = 0;
    while k < p.len()
        invariant
            size == v@.len(),
            i + p@.len() <= v@.len(),
            k <= p@.len(),
            forall|j: int| 0 <= j < k ==> v@[i + j] == p@[j],
        decreases p@.len() - k,
    {
        if v[i + k] != p[k] {
            assert(v@.subrange(i as int, i + p@.len())[k as int] != p@[k as int]);
            return false;
        }
        k += 1;
    }
    assert(v@.subrange(i as int, i + p@.len()) == p@);
    true
}

/// Tests whether `s` begins with `p`.
pub fn starts_with(s: &str, p: &str) -> (r: bool)
    ensures
        r == begins(s@, p@),
{
    let v = chars_of(s);
    let w = chars_of(p);
    if w.len() > v.len() {
        return false;
    }
    assert(s@.subrange(0, p@.len() as int) == s@.take(p@.len() as int));
    matches_at(v.as_slice(), w.as_slice(), 0)
}

/// Tests whether `p` stands anywhere in `s`.
pub fn contains(s: &str, p: &str) -> (r: bool)
    ensures
        r == occurs(s@, p@),
{
    let v = chars_of(s);
    let w = chars_of(p);
    if w.len() > v.len() {
        return false;
    }
    let last: usize = v.len() - w.len();
    let mut i: usize = 0;
    loop
        invariant
            v@ == s@,
            w@ == p@,
            last == v@.len() - w@.len(),
            i <= last,
            forall|j: int| 0 <= j < i ==> !stands_at(s@, p@, j),
        decreases last - i,
    {
        if matches_at(v.as_slice(), w.as_slice(), i) {
            return true;
        }
        if i == last {
            return false;
        }
        i += 1;
    }
}

/// The last position of a character in a text.
pub open spec fn last_position(s: Seq<char>, c: char) -> Option<int>
    decreases s.len(),
{
    if s.len() == 0 {
        None
    } else if s.last() == c {
        Some(s.len() - 1)
    } else {
        last_position(s.drop_last(), c)
    }
}

/// A character that does not occur in what follows it is the last of its kind.
pub proof fn lemma_last_position_before(s: Seq<char>, c: char, rest: Seq<char>)
    requires
        forall|i: int| 0 <= i < rest.len() ==> #[trigger] rest[i] != c,
    ensures
        last_position(s.push(c) + rest, c) == Some(s.len() as int),
    decreases rest.len(),
{
    let t = s.push(c) + rest;
    if rest.len() == 0 {
        assert(t =~= s.push(c));
    } else {
        assert(t.last() == rest.last());
        assert(rest[rest.len() - 1] != c);
        assert(t.drop_last() =~= s.push(c) + rest.drop_last());
        lemma_last_position_before(s, c, rest.drop_last());
    }
}

/// A text that neither begins nor ends with whitespace is not changed by
/// trimming.
pub proof fn lemma_nothing_to_trim(s: Seq<char>)
    requires
        s.len() > 0,
        !is_white(s[0]),
        !is_white(s.last()),
    ensures
        trimmed(s) == s,
{
}

/// Finds the last position of a character.
pub fn rfind(v: &[char], c: char) -> (r: Option<usize>)
    ensures
        match r {
            Some(i) => last_position(v@, c) == Some(i as int) && i < v@.len(),
            None => last_position(v@, c) is None,
        },
{
    let mut n: usize = v.len();
    assert(v@.take(n as int) == v@);
    while n > 0
        invariant
            n <= v@.len(),
            last_position(v@, c) == last_position(v@.take(n as int), c),
        decreases n,
    {
        if v[n - 1] == c {
            return Some(n - 1);
        }
        assert(v@.take(n as int).drop_last() == v@.take(n - 1));
        n -= 1;
    }
    None
}

// ---------------------------------------------------------------------------
// Words
// ---------------------------------------------------------------------------
/// The length of the leading run of characters that are not whitespace.
pub open spec fn word_length(s: Seq<char>) -> nat
    decreases s.len(),
{
    if s.len() == 0 || is_white(s[0]) {
        0
    } else {
        1 + word_length(s.skip(1))
    }
}

/// A leading word is no longer than the text.
pub proof fn lemma_word_length(s: Seq<char>)
    ensures
        word_length(s) <= s.len(),
    decreases s.len(),
{
    if s.len() > 0 && !is_white(s[0]) {
        lemma_word_length(s.skip(1));
    }
}

/// The whitespace-separated words of a text, in order.
pub open spec fn words(s: Seq<char>) -> Seq<Seq<char>>
    decreases s.len(),
{
    let t = strip_start(s, CharClass::Whitespace);
    if t.len() == 0 {
        Seq::empty()
    } else {
        proof {
            lemma_strip_start_is_suffix(s, CharClass::Whitespace);
            lemma_strip_start_stops(s, CharClass::Whitespace);
            lemma_word_length(t);
        }
        let n = word_length(t) as int;
        seq![t.take(n)] + words(t.skip(n))
    }
}

/// What `strip_start` leaves does not begin with a character of the class.
pub proof fn lemma_strip_start_stops(s: Seq<char>, class: CharClass)
    ensures
        strip_start(s, class).len() > 0 ==> !class.holds(strip_start(s, class)[0]),
    decreases s.len(),
{
    if s.len() > 0 && class.holds(s[0]) {
        lemma_strip_start_stops(s.skip(1), class);
    }
}

/// Measures the leading word.
fn word_end(v: &[char]) -> (n: usize)
    ensures
        n == word_length(v@),
        n <= v@.len(),
{
    let mut n: usize = 0;
    assert(v@.skip(0) == v@);
    while n < v.len() && !CharClass::Whitespace.has(v[n])
        invariant
            n <= v@.len(),
            word_length(v@) == n + word_length(v@.skip(n as int)),
        decreases v@.len() - n,
    {
        assert(v@.skip(n as int).skip(1) == v@.skip(n + 1));
        n += 1;
    }
    n
}

/// Splits a text into its whitespace-separated words.
pub fn split_words(s: &str) -> (out: Vec<&str>)
    ensures
        out@.map_values(|w: &str| w@) == words(s@),
{
    let mut out: Vec<&str> = Vec::new();
    let mut rest: &str = s;
    proof {
        assert(out@.map_values(|w: &str| w@) + words(rest@) == words(s@));
    }
    loop
        invariant
            out@.map_values(|w: &str| w@) + words(rest@) == words(s@),
        decreases rest@.len(),
    {
        let v = chars_of(rest);
        let a: usize = leading(v.as_slice(), CharClass::Whitespace);
        let t = rest.substring_char(a, v.len());
        assert(t@ == rest@.skip(a as int));
        let w = chars_of(t);
        if w.len() == 0 {
            assert(words(rest@) == Seq::<Seq<char>>::empty());
            assert(out@.map_values(|w: &str| w@) + words(rest@) == out@.map_values(
                |w: &str| w@,
            ));
            return out;
        }
        let n: usize = word_end(w.as_slice());
        proof {
            lemma_strip_start_stops(rest@, CharClass::Whitespace);
        }
        let word = t.substring_char(0, n);
        let tail = t.substring_char(n, w.len());
        assert(word@ == t@.take(n as int));
        assert(tail@ == t@.skip(n as int));
        let ghost before = out@.map_values(|w: &str| w@);
        out.push(word);
        proof {
            assert(out@.map_values(|w: &str| w@) == before.push(word@));
            assert(before.push(word@) + words(tail@) == before + (seq![word@] + words(tail@)));
        }
        rest = tail;
    }
}

// ---------------------------------------------------------------------------
// Order
// ---------------------------------------------------------------------------
/// Whether a text comes before another: by the first character in which they
/// differ, and a beginning before what it is the beginning of.
pub open spec fn precedes(a: Seq<char>, b: Seq<char>) -> bool
    decreases a.len(),
{
    if b.len() == 0 {
        false
    } else if a.len() == 0 {
        true
    } else if a[0] != b[0] {
        a[0] < b[0]
    } else {
        precedes(a.skip(1), b.skip(1))
    }
}

/// No text comes before itself.
pub proof fn lemma_precedes_irreflexive(a: Seq<char>)
    ensures
        !precedes(a, a),
    decreases a.len(),
{
    if a.len() > 0 {
        lemma_precedes_irreflexive(a.skip(1));
    }
}

/// Of two texts that differ, one comes before the other.
pub proof fn lemma_precedes_total(a: Seq<char>, b: Seq<char>)
    ensures
        a == b || precedes(a, b) || precedes(b, a),
    decreases a.len(),
{
    if a.len() == 0 {
        if b.len() == 0 {
            assert(a =~= b);
        }
    } else if b.len() > 0 && a[0] == b[0] {
        lemma_precedes_total(a.skip(1), b.skip(1));
        if a.skip(1) == b.skip(1) {
            assert(a =~= seq![a[0]] + a.skip(1));
            assert(b =~= seq![b[0]] + b.skip(1));
        }
    }
}

/// What comes before a text that comes before another comes before that one.
pub proof fn lemma_precedes_transitive(a: Seq<char>, b: Seq<char>, c: Seq<char>)
    requires
        precedes(a, b),
        precedes(b, c),
    ensures
        precedes(a, c),
    decreases a.len(),
{
    if a.len() > 0 && b.len() > 0 && c.len() > 0 && a[0] == b[0] && b[0] == c[0] {
        lemma_precedes_transitive(a.skip(1), b.skip(1), c.skip(1));
    }
}

/// Tells whether a text comes before another.
pub fn comes_before(a: &str, b: &str) -> (r: bool)
    ensures
        r == precedes(a@, b@),
{
    let x = chars_of(a);
    let y = chars_of(b);
    let mut i: usize = 0;
    assert(x@.skip(0) == x@);
    assert(y@.skip(0) == y@);
    while i < x.len() && i < y.len()
        invariant
            x@ == a@,
            y@ == b@,
            i <= x@.len(),
            i <= y@.len(),
            precedes(x@, y@) == precedes(x@.skip(i as int), y@.skip(i as int)),
        decreases x@.len() - i,
    {
        assert(x@.skip(i as int).skip(1) == x@.skip(i + 1));
        assert(y@.skip(i as int).skip(1) == y@.skip(i + 1));
        let c: char = x[i];
        let d: char = y[i];
        assert(x@.skip(i as int)[0] == c);
        assert(y@.skip(i as int)[0] == d);
        if c != d {
            return c < d;
        }
        i += 1;
    }
    i < y.len()
}

/// How a text that may be missing is shown by `Debug`.
pub uninterp spec fn shown_option(s: Option<Seq<char>>) -> Seq<char>;

/// The `Debug` form of an `Option<String>` of std. Its escapes are named as a
/// function of the text.
#[verifier::external_body]
pub(crate) fn show_option(s: &Option<String>) -> (r: String)
    ensures
        r@ == shown_option(opt_text(*s)),
{
    format!("{:?}", s)
}

// ---------------------------------------------------------------------------
// Decimal numbers
// ---------------------------------------------------------------------------
/// The decimal digit for a value below ten.
pub open spec fn digit_char(d: nat) -> char {
    (48 + d) as char
}

/// The value of a decimal digit.
pub open spec fn digit_value(c: char) -> nat {
    (c as u32 - 48) as nat
}

/// The decimal representation of a natural number.
pub open spec fn decimal(n: nat) -> Seq<char>
    decreases n,
{
    if n < 10 {
        seq![digit_char(n)]
    } else {
        decimal(n / 10).push(digit_char(n % 10))
    }
}

/// The decimal representation of an integer, with a leading `-` when negative.
pub open spec fn decimal_int(n: int) -> Seq<char> {
    if n < 0 {
        seq!['-'] + decimal((-n) as nat)
    } else {
        decimal(n as nat)
    }
}

/// Appends the decimal representation of a number.
fn push_decimal(out: &mut String, n: u64)
    ensures
        final(out)@ == old(out)@ + decimal(n as nat),
    decreases n,
{
    if n < 10 {
        out.push((48 + n as u8) as char);
        assert(out@ == old(out)@ + decimal(n as nat));
    } else {
        push_decimal(out, n / 10);
        out.push((48 + (n % 10) as u8) as char);
        assert(out@ == old(out)@ + decimal(n as nat));
    }
}

/// The decimal representation of an unsigned number.
pub fn decimal_of(n: u64) -> (r: String)
    ensures
        r@ == decimal(n as nat),
{
    let mut out = String::new();
    push_decimal(&mut out, n);
    assert(out@ == decimal(n as nat));
    out
}

/// The decimal representation of a signed number.
pub fn decimal_of_int(n: i64) -> (r: String)
    ensures
        r@ == decimal_int(n as int),
{
    let mut out = String::new();
    if n < 0 {
        out.push('-');
        let m: u64 = if n == i64::MIN {
            0x8000_0000_0000_0000u64
        } else {
            (-n) as u64
        };
        push_decimal(&mut out, m);
        assert(out@ == decimal_int(n as int));
        out
    } else {
        push_decimal(&mut out, n as u64);
        assert(out@ == decimal_int(n as int));
        out
    }
}

/// Whether a text is made of decimal digits only.
pub open spec fn all_digits(s: Seq<char>) -> bool {
    forall|i: int| 0 <= i < s.len() ==> is_digit(#[trigger] s[i])
}

/// The number that a sequence of decimal digits denotes.
pub open spec fn number_of(s: Seq<char>) -> nat
    decreases s.len(),
{
    if s.len() == 0 {
        0
    } else {
        number_of(s.drop_last()) * 10 + digit_value(s.last())
    }
}

/// A text without a leading sign.
pub open spec fn unsigned_part(s: Seq<char>, sign: char) -> Seq<char> {
    if s.len() > 0 && s[0] == sign {
        s.skip(1)
    } else {
        s
    }
}

/// What a text denotes as a `u64`: an optional `+` and at least one digit, with
/// a value in range.
pub open spec fn parsed_u64(s: Seq<char>) -> Option<u64> {
    let body = unsigned_part(s, '+');
    if body.len() > 0 && all_digits(body) && number_of(body) <= u64::MAX {
        Some(number_of(body) as u64)
    } else {
        None
    }
}

/// What a text denotes as an `i64`: an optional sign and at least one digit,
/// with a value in range.
pub open spec fn parsed_i64(s: Seq<char>) -> Option<i64> {
    let negative = s.len() > 0 && s[0] == '-';
    let body = if negative {
        s.skip(1)
    } else {
        unsigned_part(s, '+')
    };
    let value = if negative {
        -(number_of(body) as int)
    } else {
        number_of(body) as int
    };
    if body.len() > 0 && all_digits(body) && i64::MIN <= value <= i64::MAX {
        Some(value as i64)
    } else {
        None
    }
}

/// A longer number is not smaller.
proof fn lemma_number_monotone(s: Seq<char>, k: int)
    requires
        0 <= k <= s.len(),
    ensures
        number_of(s.take(k)) <= number_of(s),
    decreases s.len() - k,
{
    if k == s.len() {
        assert(s.take(k) == s);
    } else {
        lemma_number_monotone(s, k + 1);
        assert(s.take(k + 1).drop_last() == s.take(k));
    }
}

/// What the decimal representation of a number is: digits that denote it.
pub proof fn lemma_decimal(n: nat)
    ensures
        decimal(n).len() > 0,
        all_digits(decimal(n)),
        number_of(decimal(n)) == n,
    decreases n,
{
    if n < 10 {
        assert(decimal(n) =~= seq![digit_char(n)]);
        assert(decimal(n).drop_last() =~= Seq::<char>::empty());
        assert(number_of(Seq::<char>::empty()) == 0);
        assert(digit_value(digit_char(n)) == n);
    } else {
        lemma_decimal(n / 10);
        assert(decimal(n).drop_last() =~= decimal(n / 10));
        assert(digit_value(digit_char(n % 10)) == n % 10);
    }
}

/// The decimal representation of a number is read as that number.
pub proof fn law_decimal_round_trip(n: u64)
    ensures
        parsed_u64(decimal(n as nat)) == Some(n),
{
    lemma_decimal(n as nat);
    assert(is_digit(decimal(n as nat)[0]));
}

/// Reads a `u64`.
pub fn parse_u64(s: &str) -> (r: Option<u64>)
    ensures
        r == parsed_u64(s@),
{
    let v = chars_of(s);
    let start: usize = if v.len() > 0 && v[0] == '+' {
        1
    } else {
        0
    };
    let ghost body = unsigned_part(s@, '+');
    assert(body == s@.skip(start as int));
    if start == v.len() {
        return None;
    }
    let mut value: u64 = 0;
    let mut i: usize = start;
    assert(body.take(0) == Seq::<char>::empty());
    while i < v.len()
        invariant
            v@ == s@,
            start <= i <= v@.len(),
            body == s@.skip(start as int),
            body == unsigned_part(s@, '+'),
            value == number_of(body.take(i - start)),
            forall|j: int| 0 <= j < i - start ==> is_digit(#[trigger] body[j]),
        decreases v@.len() - i,
    {
        let c = v[i];
        assert(body[i - start] == c);
        if !('0' <= c && c <= '9') {
            return None;
        }
        let d: u64 = (c as u32 - 48) as u64;
        proof {
            assert(body.take(i - start + 1).drop_last() == body.take(i - start));
            lemma_number_monotone(body, i - start + 1);
        }
        if value > u64::MAX / 10 || value * 10 > u64::MAX - d {
            return None;
        }
        value = value * 10 + d;
        i += 1;
    }
    assert(body.take(body.len() as int) == body);
    Some(value)
}

/// The message that goes with a text that is not an `i64`.
pub uninterp spec fn i64_error_text(s: Seq<char>) -> Seq<char>;

/// `<i64 as FromStr>::from_str` of std, with its error rendered by `to_string`.
///
/// Claimed: it succeeds exactly on an optional sign followed by digits whose
/// value is in range, and returns that value. The wording of the error is not
/// documented; it is named as a function of the text.
#[verifier::external_body]
pub(crate) fn parse_i64(s: &str) -> (r: Result<i64, String>)
    ensures
        match r {
            Ok(v) => parsed_i64(s@) == Some(v),
            Err(e) => parsed_i64(s@) is None && e@ == i64_error_text(s@),
        },
{
    s.parse::<i64>().map_err(|e| e.to_string())
}

/// The Unicode lower-case form of a text.
pub uninterp spec fn unicode_lower(s: Seq<char>) -> Seq<char>;

/// `str::to_lowercase` of std. Its result follows the Unicode tables and is
/// named as a function of the text.
#[verifier::external_body]
pub(crate) fn to_lowercase(s: &str) -> (r: String)
    ensures
        r@ == unicode_lower(s@),
{
    s.to_lowercase()
}

// ---------------------------------------------------------------------------
// Laws
// ---------------------------------------------------------------------------
/// Folding the case of a text changes ASCII letters only, each to its other form,
/// and keeps every character in its place.
pub proof fn law_case_folding_touches_ascii_letters_only(s: Seq<char>, i: int)
    requires
        0 <= i < s.len(),
    ensures
        lower(s).len() == s.len(),
        upper(s).len() == s.len(),
        'A' <= s[i] && s[i] <= 'Z' ==> lower(s)[i] as u32 == s[i] as u32 + 32,
        !('A' <= s[i] && s[i] <= 'Z') ==> lower(s)[i] == s[i],
        'a' <= s[i] && s[i] <= 'z' ==> upper(s)[i] as u32 == s[i] as u32 - 32,
        !('a' <= s[i] && s[i] <= 'z') ==> upper(s)[i] == s[i],
{
}

/// Of the ASCII characters, the blank and those from tab to carriage return are
/// white space.
pub proof fn law_ascii_white_space(c: char)
    requires
        (c as u32) < 128,
    ensures
        is_white(c) <==> c == ' ' || ('\t' <= c && c <= '\r'),
        is_digit(c) <==> 48 <= (c as u32) <= 57,
{
}

/// What is stripped from either end of a text is of the class, and what is left
/// neither begins nor ends with a character of the class.
pub proof fn law_stripping_takes_the_class_from_the_ends(s: Seq<char>, class: CharClass)
    ensures
        exists|a: int, b: int|
            0 <= a <= b <= s.len() && strip(s, class) == #[trigger] s.subrange(a, b) && (forall|
                i: int,
            |
                0 <= i < a ==> class.holds(#[trigger] s[i])) && (forall|i: int|
                b <= i < s.len() ==> class.holds(#[trigger] s[i])),
        strip(s, class).len() > 0 ==> !class.holds(strip(s, class)[0]) && !class.holds(
            strip(s, class).last(),
        ),
{
    let t = strip_start(s, class);
    let u = strip_end(t, class);
    lemma_strip_start_span(s, class);
    lemma_strip_start_is_suffix(s, class);
    lemma_strip_start_stops(s, class);
    lemma_strip_end_span(t, class);
    let a = s.len() - t.len();
    let b = a + u.len();
    assert(u =~= s.subrange(a, b));
    assert forall|i: int| b <= i < s.len() implies class.holds(#[trigger] s[i]) by {
        assert(t[i - a] == s[i]);
    }
}

/// What `strip_start` takes away is of the class.
proof fn lemma_strip_start_span(s: Seq<char>, class: CharClass)
    ensures
        forall|i: int|
            0 <= i < s.len() - strip_start(s, class).len() ==> class.holds(#[trigger] s[i]),
    decreases s.len(),
{
    if s.len() > 0 && class.holds(s[0]) {
        let rest = s.skip(1);
        lemma_strip_start_span(rest, class);
        assert forall|i: int| 0 <= i < s.len() - strip_start(s, class).len() implies class.holds(
            #[trigger] s[i],
        ) by {
            if i > 0 {
                assert(rest[i - 1] == s[i]);
            }
        }
    }
}

/// `strip_end` takes a suffix away that is of the class, and stops where the class
/// ends.
pub proof fn lemma_strip_end_span(s: Seq<char>, class: CharClass)
    ensures
        strip_end(s, class).len() <= s.len(),
        strip_end(s, class) == s.take(strip_end(s, class).len() as int),
        strip_end(s, class).len() > 0 ==> !class.holds(strip_end(s, class).last()),
        forall|i: int|
            strip_end(s, class).len() <= i < s.len() ==> class.holds(#[trigger] s[i]),
    decreases s.len(),
{
    if s.len() > 0 && class.holds(s.last()) {
        let front = s.drop_last();
        lemma_strip_end_span(front, class);
        let n = strip_end(s, class).len() as int;
        assert(front.take(n) =~= s.take(n));
        assert forall|i: int| n <= i < s.len() implies class.holds(#[trigger] s[i]) by {
            if i < s.len() - 1 {
                assert(front[i] == s[i]);
            }
        }
    } else {
        assert(s.take(s.len() as int) =~= s);
    }
}

/// A text is trimmed of white space at its ends and of nothing else: what is left
/// stands in it between white space, and neither begins nor ends with any.
pub proof fn law_trimming_takes_white_space_from_the_ends(s: Seq<char>)
    ensures
        exists|a: int, b: int|
            0 <= a <= b <= s.len() && trimmed(s) == #[trigger] s.subrange(a, b) && (forall|i: int|
                0 <= i < a ==> is_white(#[trigger] s[i])) && (forall|i: int|
                b <= i < s.len() ==> is_white(#[trigger] s[i])),
        trimmed(s).len() > 0 ==> !is_white(trimmed(s)[0]) && !is_white(trimmed(s).last()),
{
    let class = CharClass::Whitespace;
    law_stripping_takes_the_class_from_the_ends(s, class);
    let (a, b) = choose|a: int, b: int|
        0 <= a <= b <= s.len() && strip(s, class) == #[trigger] s.subrange(a, b) && (forall|i: int|
            0 <= i < a ==> class.holds(#[trigger] s[i])) && (forall|i: int|
            b <= i < s.len() ==> class.holds(#[trigger] s[i]));
    assert forall|i: int| 0 <= i < a implies is_white(#[trigger] s[i]) by {
        assert(class.holds(s[i]));
    }
    assert forall|i: int| b <= i < s.len() implies is_white(#[trigger] s[i]) by {
        assert(class.holds(s[i]));
    }
    assert(trimmed(s) == s.subrange(a, b));
}

/// The last position of a character holds it, and none after it does; there is none
/// only where the character does not occur.
pub proof fn law_last_position_is_the_last(s: Seq<char>, c: char)
    ensures
        match last_position(s, c) {
            Some(i) => 0 <= i < s.len() && s[i] == c && forall|j: int|
                i < j < s.len() ==> #[trigger] s[j] != c,
            None => forall|j: int| 0 <= j < s.len() ==> #[trigger] s[j] != c,
        },
    decreases s.len(),
{
    if s.len() > 0 && s.last() != c {
        let front = s.drop_last();
        law_last_position_is_the_last(front, c);
        assert forall|j: int| 0 <= j < front.len() implies #[trigger] s[j] == front[j] by {}
    }
}

/// A text that begins with a stretch without white space, which white space or
/// nothing follows, has that stretch as its first word.
pub proof fn law_first_word_ends_at_white_space(word: Seq<char>, rest: Seq<char>)
    requires
        word.len() > 0,
        forall|i: int| 0 <= i < word.len() ==> !is_white(#[trigger] word[i]),
        rest.len() > 0 ==> is_white(rest[0]),
    ensures
        words(word + rest) == seq![word] + words(rest),
{
    let s = word + rest;
    let n = word.len() as int;
    assert(s[0] == word[0]);
    lemma_word_ends(word, rest);
    assert(s.take(n) =~= word);
    assert(s.skip(n) =~= rest);
}

proof fn lemma_word_ends(word: Seq<char>, rest: Seq<char>)
    requires
        forall|i: int| 0 <= i < word.len() ==> !is_white(#[trigger] word[i]),
        rest.len() > 0 ==> is_white(rest[0]),
    ensures
        word_length(word + rest) == word.len(),
    decreases word.len(),
{
    let s = word + rest;
    if word.len() == 0 {
        assert(s =~= rest);
    } else {
        assert(s[0] == word[0]);
        assert(s.skip(1) =~= word.skip(1) + rest);
        assert forall|i: int| 0 <= i < word.skip(1).len() implies !is_white(
            #[trigger] word.skip(1)[i],
        ) by {
            assert(word.skip(1)[i] == word[i + 1]);
        }
        lemma_word_ends(word.skip(1), rest);
    }
}

/// White space before a text does not change its words.
pub proof fn law_leading_white_space_is_no_word(c: char, s: Seq<char>)
    requires
        is_white(c),
    ensures
        words(seq![c] + s) == words(s),
        words(Seq::<char>::empty()).len() == 0,
{
    let t = seq![c] + s;
    assert(t.skip(1) =~= s);
    assert(strip_start(t, CharClass::Whitespace) == strip_start(s, CharClass::Whitespace));
}

/// A number is read as what it was written as, with or without a sign.
pub proof fn law_signed_decimal_round_trip(n: i64)
    ensures
        parsed_i64(decimal_int(n as int)) == Some(n),
{
    if n < 0 {
        let m = (-(n as int)) as nat;
        lemma_decimal(m);
        let s = decimal_int(n as int);
        assert(s.skip(1) =~= decimal(m));
        assert(s[0] == '-');
    } else {
        lemma_decimal(n as nat);
        assert(is_digit(decimal(n as nat)[0]));
    }
}

/// What occurs in a text that occurs in another occurs in that.
pub proof fn lemma_occurs_trans(s: Seq<char>, t: Seq<char>, u: Seq<char>)
    requires
        occurs(s, t),
        occurs(t, u),
    ensures
        occurs(s, u),
{
    let i = choose|i: int| stands_at(s, t, i);
    let j = choose|j: int| stands_at(t, u, j);
    assert forall|k: int| 0 <= k < u.len() implies s[i + j + k] == #[trigger] u[k] by {
        assert(t.subrange(j, j + u.len())[k] == u[k]);
        assert(s.subrange(i, i + t.len())[j + k] == t[j + k]);
    }
    lemma_occurs_at(s, u, i + j);
}

/// A word of a text stands in it, is not empty and has no white space in it.
pub proof fn law_words_stand_in_the_text(s: Seq<char>, k: int)
    requires
        0 <= k < words(s).len(),
    ensures
        occurs(s, words(s)[k]),
        words(s)[k].len() > 0,
        forall|i: int| 0 <= i < words(s)[k].len() ==> !is_white(#[trigger] words(s)[k][i]),
    decreases s.len(),
{
    let t = strip_start(s, CharClass::Whitespace);
    lemma_strip_start_is_suffix(s, CharClass::Whitespace);
    lemma_strip_start_stops(s, CharClass::Whitespace);
    lemma_word_length(t);
    let n = word_length(t) as int;
    let from = s.len() - t.len();
    if k == 0 {
        lemma_word_is_black(t);
        lemma_occurs_at(s, t.take(n), from);
    } else {
        let rest = t.skip(n);
        law_words_stand_in_the_text(rest, k - 1);
        lemma_occurs_at(s, rest, from + n);
        lemma_occurs_trans(s, rest, words(rest)[k - 1]);
    }
}

proof fn lemma_word_is_black(s: Seq<char>)
    ensures
        word_length(s) <= s.len(),
        forall|i: int| 0 <= i < word_length(s) ==> !is_white(#[trigger] s[i]),
    decreases s.len(),
{
    if s.len() > 0 && !is_white(s[0]) {
        let rest = s.skip(1);
        lemma_word_is_black(rest);
        assert forall|i: int| 0 <= i < word_length(s) implies !is_white(#[trigger] s[i]) by {
            if i > 0 {
                assert(rest[i - 1] == s[i]);
            }
        }
    }
}

/// The decimal representation of a number ends with its units, has the rest of the
/// number before them, and begins with a zero only where the number is zero.
pub proof fn law_decimal_is_written_by_tens(n: nat)
    ensures
        decimal(n).last() as u32 == 48 + n % 10,
        n >= 10 ==> decimal(n).drop_last() == decimal(n / 10),
        n < 10 ==> decimal(n).len() == 1,
        n > 0 ==> decimal(n)[0] != '0',
    decreases n,
{
    if n >= 10 {
        law_decimal_is_written_by_tens(n / 10);
        assert(decimal(n).drop_last() =~= decimal(n / 10));
        lemma_decimal(n / 10);
        assert(decimal(n)[0] == decimal(n / 10)[0]);
    }
}

/// Texts that share a beginning are ordered by the first character in which they
/// differ; a beginning comes before what it is the beginning of.
pub proof fn law_texts_are_ordered_like_a_dictionary(
    start: Seq<char>,
    x: char,
    y: char,
    s: Seq<char>,
    t: Seq<char>,
)
    requires
        x != y,
    ensures
        precedes(start.push(x) + s, start.push(y) + t) <==> x < y,
        precedes(start, start.push(x) + s),
    decreases start.len(),
{
    let a = start.push(x) + s;
    let b = start.push(y) + t;
    if start.len() > 0 {
        let rest = start.skip(1);
        law_texts_are_ordered_like_a_dictionary(rest, x, y, s, t);
        assert(a.skip(1) =~= rest.push(x) + s);
        assert(b.skip(1) =~= rest.push(y) + t);
        assert(a[0] == start[0] && b[0] == start[0]);
    } else {
        assert(a[0] == x && b[0] == y);
    }
}

/// A text occurs in another where that one is made of something, the text, and
/// something; it begins another where nothing comes before it.
pub proof fn law_what_occurs_stands_between_two_texts(s: Seq<char>, p: Seq<char>)
    ensures
        occurs(s, p) <==> exists|a: Seq<char>, b: Seq<char>| s == #[trigger] (a + p + b),
        begins(s, p) <==> exists|b: Seq<char>| s == #[trigger] (p + b),
{
    if occurs(s, p) {
        let i = choose|i: int| stands_at(s, p, i);
        let a = s.take(i);
        let b = s.skip(i + p.len());
        assert(s.subrange(i, i + p.len()) == p);
        assert(s =~= a + p + b);
    }
    if exists|a: Seq<char>, b: Seq<char>| s == #[trigger] (a + p + b) {
        let (a, b) = choose|a: Seq<char>, b: Seq<char>| s == #[trigger] (a + p + b);
        lemma_occurs_at(s, p, a.len() as int);
    }
    if begins(s, p) {
        assert(s =~= p + s.skip(p.len() as int));
    }
    if exists|b: Seq<char>| s == #[trigger] (p + b) {
        let b = choose|b: Seq<char>| s == #[trigger] (p + b);
        assert(s.take(p.len() as int) =~= p);
    }
}

/// What is read as an unsigned number is made of digits, after a plus sign at most;
/// every digit counts ten times as much as the one after it.
pub proof fn law_only_digits_are_read(s: Seq<char>, c: char)
    ensures
        parsed_u64(s) is Some ==> {
            &&& s.len() > 0
            &&& s[0] == '+' || is_digit(s[0])
            &&& s[0] == '+' ==> s.len() > 1
            &&& forall|i: int| 1 <= i < s.len() ==> is_digit(#[trigger] s[i])
        },
        all_digits(s) && s.len() > 0 ==> (parsed_u64(s) is Some <==> number_of(s) <= u64::MAX),
        all_digits(s) ==> (parsed_u64(s) matches Some(n) ==> n == number_of(s)),
        is_digit(c) ==> number_of(s.push(c)) == 10 * number_of(s) + (c as u32 - 48),
        number_of(Seq::<char>::empty()) == 0,
{
    assert(s.push(c).drop_last() =~= s);
    let body = unsigned_part(s, '+');
    if parsed_u64(s) is Some {
        if s[0] == '+' {
            assert forall|i: int| 1 <= i < s.len() implies is_digit(#[trigger] s[i]) by {
                assert(body[i - 1] == s[i]);
            }
        } else {
            assert(is_digit(body[0]));
        }
    }
    if all_digits(s) && s.len() > 0 {
        assert(is_digit(s[0]));
        assert(body == s);
    }
}

} // verus!
