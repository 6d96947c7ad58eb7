//! Character-level text operations shared by the rest of the library: search,
//! trimming, line splitting, decimal rendering and parsing, and ordering.
use vstd::prelude::*;
use vstd::string::*;

verus! {

broadcast use vstd::string::group_string_axioms;

// ---------------------------------------------------------------------------
// Conversions between `String` and its characters
// ---------------------------------------------------------------------------

/// The characters of `s`, in order.
pub fn chars_of(s: &str) -> (r: Vec<char>)
    ensures
        r@ == s@,
{
    let mut r: Vec<char> = Vec::new();
    for c in it: s.chars()
        invariant
            r@ == it.seq().take(it.index() as int),
            it.seq() == s@,
    {
        r.push(c);
    }
    r
}

/// Collects characters into a `String` (`FromIterator<&char>` for `String`);
/// the string holds exactly those characters, in order.
#[verifier::external_body]
pub(crate) fn string_from_chars(cs: &[char]) -> (r: String)
    ensures
        r@ == cs@,
{
    cs.iter().collect()
}

/// A fresh `String` holding the characters of `s`.
pub fn to_owned_string(s: &str) -> (r: String)
    ensures
        r@ == s@,
{
    String::from_str(s)
}

/// The concatenation of `a` and `b` as a new `String`.
pub fn join2(a: &str, b: &str) -> (r: String)
    ensures
        r@ == a@ + b@,
{
    let mut r = String::from_str(a);
    r.append(b);
    r
}

// ---------------------------------------------------------------------------
// Lower-casing
// ---------------------------------------------------------------------------

/// What `str::to_lowercase` returns for a text: its Unicode lower-case form.
pub uninterp spec fn lowercase_text(s: Seq<char>) -> Seq<char>;

/// Whether every character of `s` is ASCII.
pub open spec fn is_ascii_text(s: Seq<char>) -> bool {
    forall|i: int| 0 <= i < s.len() ==> (#[trigger] s[i] as u32) < 128
}

/// The lower-case form of an ASCII character: `A` to `Z` become `a` to `z`,
/// every other character stays.
pub open spec fn ascii_lower(c: char) -> char {
    if 'A' <= c && c <= 'Z' {
        ((c as u32) + 32) as char
    } else {
        c
    }
}

/// `str::to_lowercase`: the lower-case form of `s` under Unicode's mapping.
/// The contract names the result, and states the mapping for an ASCII text,
/// where Unicode's lower-case forms are those of ASCII: `A` to `Z` become
/// `a` to `z` and every other character stays. The mapping of other
/// characters (Unicode's full lower-case table) is not stated.
#[verifier::external_body]
pub(crate) fn to_lowercase(s: &str) -> (r: String)
    ensures
        r@ == lowercase_text(s@),
        is_ascii_text(s@) ==> r@ == s@.map_values(|c: char| ascii_lower(c)),
{
    s.to_lowercase()
}

// ---------------------------------------------------------------------------
// Substring search
// ---------------------------------------------------------------------------

/// `needle` occurs in `hay` starting at position `i`.
pub open spec fn occurs_at(hay: Seq<char>, needle: Seq<char>, i: int) -> bool {
    0 <= i && i + needle.len() <= hay.len() && hay.subrange(i, i + needle.len()) == needle
}

/// `needle` occurs somewhere in `hay` (the empty text occurs in every text).
pub open spec fn contains_text(hay: Seq<char>, needle: Seq<char>) -> bool {
    exists|i: int| occurs_at(hay, needle, i)
}

/// `hay` begins with `prefix`.
pub open spec fn starts_with_text(hay: Seq<char>, prefix: Seq<char>) -> bool {
    prefix.len() <= hay.len() && hay.subrange(0, prefix.len() as int) == prefix
}

/// Whether `needle` matches `hay` at position `i`.
fn matches_at(hay: &Vec<char>, needle: &Vec<char>, i: usize) -> (r: bool)
    requires
        i + needle.len() <= hay.len(),
    ensures
        r == occurs_at(hay@, needle@, i as int),
{
    let n = needle.len();
    let mut j: usize = 0;
    while j < n
        invariant
            n == needle.len(),
            i + n <= hay.len(),
            j <= n,
            forall|k: int| 0 <= k < j ==> hay@[i + k] == needle@[k],
        decreases n - j,
    {
        if hay[i + j] != needle[j] {
            assert(hay@.subrange(i as int, i + n)[j as int] != needle@[j as int]);
            return false;
        }
        j = j + 1;
    }
    assert(hay@.subrange(i as int, i + n) =~= needle@);
    true
}

/// Whether `needle` occurs in `hay` (`str::contains` with a `&str` pattern).
pub fn text_contains(hay: &str, needle: &str) -> (r: bool)
    ensures
        r == contains_text(hay@, needle@),
{
    let h = chars_of(hay);
    let n = chars_of(needle);
    if n.len() > h.len() {
        assert forall|i: int| !occurs_at(hay@, needle@, i) by {}
        return false;
    }
    let last = h.len() - n.len();
    let mut i: usize = 0;
    loop
        invariant
            h@ == hay@,
            n@ == needle@,
            last == h.len() - n.len(),
            n.len() <= h.len(),
            i <= last,
            forall|k: int| 0 <= k < i ==> !occurs_at(hay@, needle@, k),
        ensures
            forall|k: int| 0 <= k <= last ==> !occurs_at(hay@, needle@, k),
        decreases last - i,
    {
        if matches_at(&h, &n, i) {
            return true;
        }
        if i == last {
            break;
        }
        i = i + 1;
    }
    assert forall|k: int| !occurs_at(hay@, needle@, k) by {
        if 0 <= k && k + needle@.len() <= hay@.len() {
            assert(k <= last);
        }
    }
    false
}

/// Whether `hay` begins with `prefix` (`str::starts_with` with a `&str` pattern).
pub fn text_starts_with(hay: &str, prefix: &str) -> (r: bool)
    ensures
        r == starts_with_text(hay@, prefix@),
{
    let h = chars_of(hay);
    let p = chars_of(prefix);
    if p.len() > h.len() {
        return false;
    }
    let r = matches_at(&h, &p, 0);
    proof {
        assert(r == occurs_at(hay@, prefix@, 0));
    }
    r
}

// ---------------------------------------------------------------------------
// Trimming
// ---------------------------------------------------------------------------

/// Unicode's `White_Space` property, which `char::is_whitespace` tests.
pub open spec fn is_whitespace(c: char) -> bool {
    let u = c as u32;
    (0x9 <= u && u <= 0xd) || u == 0x20 || u == 0x85 || u == 0xa0 || u == 0x1680 || (0x2000 <= u
        && u <= 0x200a) || u == 0x2028 || u == 0x2029 || u == 0x202f || u == 0x205f || u == 0x3000
}

fn char_is_whitespace(c: char) -> (r: bool)
    ensures
        r == is_whitespace(c),
{
    let u = c as u32;
    (0x9 <= u && u <= 0xd) || u == 0x20 || u == 0x85 || u == 0xa0 || u == 0x1680 || (0x2000 <= u
        && u <= 0x200a) || u == 0x2028 || u == 0x2029 || u == 0x202f || u == 0x205f || u == 0x3000
}

/// The bounds `(a, b)` that `str::trim` keeps: everything before `a` and from
/// `b` on is white space, and the kept part neither starts nor ends with it.
pub open spec fn trim_bounds(s: Seq<char>, a: int, b: int) -> bool {
    &&& 0 <= a <= b <= s.len()
    &&& forall|i: int| 0 <= i < a ==> is_whitespace(#[trigger] s[i])
    &&& forall|i: int| b <= i < s.len() ==> is_whitespace(#[trigger] s[i])
    &&& a < b ==> !is_whitespace(s[a]) && !is_whitespace(s[b - 1])
}

/// `s` with leading and trailing white space removed (`str::trim`).
pub open spec fn trimmed(s: Seq<char>) -> Seq<char> {
    let (a, b) = choose|a: int, b: int| trim_bounds(s, a, b);
    s.subrange(a, b)
}

/// The trim bounds of a text are unique.
pub proof fn lemma_trim_bounds_unique(s: Seq<char>, a1: int, b1: int, a2: int, b2: int)
    requires
        trim_bounds(s, a1, b1),
        trim_bounds(s, a2, b2),
    ensures
        s.subrange(a1, b1) == s.subrange(a2, b2),
{
    if a1 < b1 {
        assert(!is_whitespace(s[a1]));
        assert(!is_whitespace(s[b1 - 1]));
        if a2 < b2 {
            assert(!is_whitespace(s[a2]));
            assert(!is_whitespace(s[b2 - 1]));
            assert(a1 == a2);
            assert(b1 == b2);
        } else {
            assert(a1 < a2 || a1 >= b2);
        }
    } else if a2 < b2 {
        assert(!is_whitespace(s[a2]));
        assert(a2 < a1 || a2 >= b1);
    } else {
        assert(s.subrange(a1, b1) =~= s.subrange(a2, b2));
    }
}

/// `s` without leading and trailing white space (`str::trim`).
pub fn trim_text(s: &str) -> (r: String)
    ensures
        r@ == trimmed(s@),
{
    let cs = chars_of(s);
    let n = cs.len();
    let mut a: usize = 0;
    while a < n && char_is_whitespace(cs[a])
        invariant
            cs@ == s@,
            n == cs.len(),
            a <= n,
            forall|i: int| 0 <= i < a ==> is_whitespace(#[trigger] s@[i]),
        decreases n - a,
    {
        a = a + 1;
    }
    let mut b: usize = n;
    while b > a && char_is_whitespace(cs[b - 1])
        invariant
            cs@ == s@,
            n == cs.len(),
            a <= b <= n,
            forall|i: int| b <= i < n ==> is_whitespace(#[trigger] s@[i]),
        decreases b,
    {
        b = b - 1;
    }
    proof {
        assert(trim_bounds(s@, a as int, b as int));
        let (a2, b2) = choose|a2: int, b2: int| trim_bounds(s@, a2, b2);
        lemma_trim_bounds_unique(s@, a as int, b as int, a2, b2);
    }
    let r = string_from_chars(&cs.as_slice()[a..b]);
    proof {
        assert(cs@.subrange(a as int, b as int) == s@.subrange(a as int, b as int));
    }
    r
}

// ---------------------------------------------------------------------------
// Splitting into lines
// ---------------------------------------------------------------------------

/// `line` without one trailing carriage return.
pub open spec fn strip_cr(line: Seq<char>) -> Seq<char> {
    if line.len() > 0 && line.last() == '\r' {
        line.drop_last()
    } else {
        line
    }
}

/// The position of the first line feed in `s` at or after `from`, if any.
pub open spec fn first_newline_from(s: Seq<char>, from: int) -> int
    decreases s.len() - from,
{
    if from >= s.len() || from < 0 {
        s.len() as int
    } else if s[from] == '\n' {
        from
    } else {
        first_newline_from(s, from + 1)
    }
}

/// The first line feed at or after `from` lies between `from` and the end.
pub proof fn lemma_first_newline_bounds(s: Seq<char>, from: int)
    requires
        0 <= from,
    ensures
        from <= first_newline_from(s, from) <= s.len() || (from > s.len() && first_newline_from(s, from) == s.len()),
    decreases s.len() - from,
{
    if from < s.len() && s[from] != '\n' {
        lemma_first_newline_bounds(s, from + 1);
    }
}

/// The lines of `s` as `str::lines` yields them: split at each line feed,
/// each line without its line feed and without a carriage return just
/// before that line feed; a final line feed does not start an empty line,
/// and a last line with no line feed is kept as it is.
pub open spec fn text_lines(s: Seq<char>) -> Seq<Seq<char>>
    decreases s.len(),
{
    if s.len() == 0 {
        Seq::empty()
    } else {
        let i = first_newline_from(s, 0);
        proof {
            lemma_first_newline_bounds(s, 0);
        }
        if i >= s.len() {
            seq![s]
        } else {
            seq![strip_cr(s.subrange(0, i))] + text_lines(s.subrange(i + 1, s.len() as int))
        }
    }
}

proof fn lemma_first_newline_shift(s: Seq<char>, start: int, from: int)
    requires
        0 <= start <= from <= s.len(),
    ensures
        first_newline_from(s, from) - start == first_newline_from(
            s.subrange(start, s.len() as int),
            from - start,
        ),
        from <= first_newline_from(s, from) <= s.len(),
        forall|k: int| from <= k < first_newline_from(s, from) ==> s[k] != '\n',
        first_newline_from(s, from) < s.len() ==> s[first_newline_from(s, from)] == '\n',
    decreases s.len() - from,
{
    if from < s.len() && s[from] != '\n' {
        lemma_first_newline_shift(s, start, from + 1);
    }
}

/// Each line of `s`, as an owned `String` (`str::lines`).
pub fn lines_of(s: &str) -> (r: Vec<String>)
    ensures
        r@.map_values(|l: String| l@) == text_lines(s@),
{
    let cs = chars_of(s);
    let n = cs.len();
    let mut out: Vec<String> = Vec::new();
    let mut start: usize = 0;
    proof {
        assert(s@.subrange(0, n as int) =~= s@);
    }
    while start < n
        invariant
            cs@ == s@,
            n == cs.len(),
            start <= n,
            out@.map_values(|l: String| l@) + text_lines(s@.subrange(start as int, n as int))
                == text_lines(s@),
        decreases n - start,
    {
        let mut end: usize = start;
        while end < n && cs[end] != '\n'
            invariant
                cs@ == s@,
                n == cs.len(),
                start <= end <= n,
                forall|k: int| start <= k < end ==> s@[k] != '\n',
            decreases n - end,
        {
            end = end + 1;
        }
        let ghost rest = s@.subrange(start as int, n as int);
        proof {
            lemma_first_newline_shift(s@, start as int, start as int);
            let f = first_newline_from(s@, start as int);
            if end < n {
                assert(f == end) by {
                    if f < end {
                        assert(s@[f] == '\n');
                    }
                }
            } else {
                assert(f == n);
            }
            assert(first_newline_from(rest, 0) == end - start);
        }
        let mut stop = end;
        if end < n && stop > start && cs[stop - 1] == '\r' {
            stop = stop - 1;
        }
        let line = string_from_chars(&cs.as_slice()[start..stop]);
        proof {
            assert(end < n ==> line@ == strip_cr(rest.subrange(0, end - start))) by {
                assert(rest.subrange(0, end - start) =~= s@.subrange(start as int, end as int));
                if end < n && end > start && s@[end - 1] == '\r' {
                    assert(line@ =~= s@.subrange(start as int, end as int).drop_last());
                } else {
                    assert(line@ =~= s@.subrange(start as int, end as int));
                }
            }
        }
        let ghost old_out = out@;
        out.push(line);
        proof {
            assert(out@.map_values(|l: String| l@) =~= old_out.map_values(|l: String| l@).push(
                line@,
            ));
        }
        if end < n {
            proof {
                assert(rest.subrange(end - start + 1, rest.len() as int) =~= s@.subrange(
                    end + 1,
                    n as int,
                ));
                assert(text_lines(rest) == seq![line@] + text_lines(
                    s@.subrange(end + 1, n as int),
                ));
                assert(out@.map_values(|l: String| l@) + text_lines(
                    s@.subrange(end + 1, n as int),
                ) =~= old_out.map_values(|l: String| l@) + text_lines(rest));
            }
            start = end + 1;
        } else {
            proof {
                assert(rest.subrange(0, end - start) =~= rest);
                assert(line@ =~= rest);
                assert(text_lines(rest) == seq![line@]);
                assert(s@.subrange(n as int, n as int) =~= Seq::<char>::empty());
                assert(out@.map_values(|l: String| l@) + text_lines(
                    s@.subrange(n as int, n as int),
                ) =~= old_out.map_values(|l: String| l@) + text_lines(rest));
            }
            start = n;
        }
    }
    proof {
        assert(s@.subrange(n as int, n as int) =~= Seq::<char>::empty());
        assert(out@.map_values(|l: String| l@) + text_lines(Seq::<char>::empty())
            =~= out@.map_values(|l: String| l@));
    }
    out
}

// ---------------------------------------------------------------------------
// Decimal numbers
// ---------------------------------------------------------------------------

/// The decimal digit character for `d < 10`.
pub open spec fn digit_char(d: nat) -> char {
    seq!['0', '1', '2', '3', '4', '5', '6', '7', '8', '9'][d as int]
}

/// The decimal rendering of `n`, without sign or leading zeros.
pub open spec fn decimal_text(n: nat) -> Seq<char>
    decreases n,
{
    if n < 10 {
        seq![digit_char(n)]
    } else {
        decimal_text(n / 10).push(digit_char(n % 10))
    }
}

/// The decimal rendering of `n`, padded on the left with zeros to `width`
/// characters (the `{:0width}` format).
pub open spec fn zero_padded(n: nat, width: nat) -> Seq<char> {
    let d = decimal_text(n);
    if d.len() < width {
        Seq::new((width - d.len()) as nat, |i: int| '0') + d
    } else {
        d
    }
}

fn digit(d: u64) -> (c: char)
    requires
        d < 10,
    ensures
        c == digit_char(d as nat),
{
    match d {
        0 => '0',
        1 => '1',
        2 => '2',
        3 => '3',
        4 => '4',
        5 => '5',
        6 => '6',
        7 => '7',
        8 => '8',
        _ => '9',
    }
}

/// The decimal digits of `n`.
pub fn decimal_chars(n: u64) -> (r: Vec<char>)
    ensures
        r@ == decimal_text(n as nat),
    decreases n,
{
    if n < 10 {
        let mut v: Vec<char> = Vec::new();
        v.push(digit(n));
        proof {
            assert(v@ =~= seq![digit_char(n as nat)]);
        }
        v
    } else {
        let mut v = decimal_chars(n / 10);
        v.push(digit(n % 10));
        v
    }
}

/// `n` in decimal, zero-padded to `width` characters.
pub fn zero_padded_chars(n: u64, width: usize) -> (r: Vec<char>)
    ensures
        r@ == zero_padded(n as nat, width as nat),
{
    let d = decimal_chars(n);
    if d.len() < width {
        let mut v: Vec<char> = Vec::new();
        let pad = width - d.len();
        while v.len() < pad
            invariant
                v.len() <= pad,
                forall|i: int| 0 <= i < v.len() ==> v@[i] == '0',
            decreases pad - v.len(),
        {
            v.push('0');
        }
        let mut j: usize = 0;
        let ghost v0 = v@;
        while j < d.len()
            invariant
                v0.len() == pad,
                j <= d.len(),
                v@ == v0 + d@.subrange(0, j as int),
            decreases d.len() - j,
        {
            v.push(d[j]);
            j = j + 1;
            proof {
                assert(d@.subrange(0, j as int) =~= d@.subrange(0, j - 1).push(d@[j - 1]));
            }
        }
        proof {
            assert(d@.subrange(0, d.len() as int) =~= d@);
            assert(v0 =~= Seq::new((width - d@.len()) as nat, |i: int| '0'));
        }
        v
    } else {
        d
    }
}

/// `n` in decimal as a `String` (the `{}` format of an unsigned integer).
pub fn decimal_string(n: u64) -> (r: String)
    ensures
        r@ == decimal_text(n as nat),
{
    let d = decimal_chars(n);
    string_from_chars(d.as_slice())
}

/// Whether `c` is an ASCII decimal digit.
pub open spec fn is_digit(c: char) -> bool {
    '0' <= c && c <= '9'
}

/// The value of a run of decimal digits (0 for the empty run).
pub open spec fn digits_value(s: Seq<char>) -> nat
    decreases s.len(),
{
    if s.len() == 0 {
        0
    } else {
        digits_value(s.drop_last()) * 10 + ((s.last() as u32) - ('0' as u32)) as nat
    }
}

/// Every character of `s` is a decimal digit.
pub open spec fn all_digits(s: Seq<char>) -> bool {
    forall|i: int| 0 <= i < s.len() ==> is_digit(#[trigger] s[i])
}

/// What `str::parse::<u16>` gives: an optional `+`, then one or more decimal
/// digits whose value fits in 16 bits; anything else is an error (`None`).
pub open spec fn parse_u16_text(s: Seq<char>) -> Option<u16> {
    let body = if s.len() > 0 && s[0] == '+' {
        s.drop_first()
    } else {
        s
    };
    if body.len() == 0 || !all_digits(body) || digits_value(body) > 65535 {
        None
    } else {
        Some(digits_value(body) as u16)
    }
}

/// Parses a port number as `str::parse::<u16>` does.
pub fn parse_u16(s: &str) -> (r: Option<u16>)
    ensures
        r == parse_u16_text(s@),
{
    let cs = chars_of(s);
    let mut start: usize = 0;
    if cs.len() > 0 && cs[0] == '+' {
        start = 1;
    }
    let ghost body = if s@.len() > 0 && s@[0] == '+' {
        s@.drop_first()
    } else {
        s@
    };
    proof {
        assert(body =~= s@.subrange(start as int, s@.len() as int));
    }
    if start == cs.len() {
        return None;
    }
    let mut acc: u32 = 0;
    let mut i: usize = start;
    while i < cs.len()
        invariant
            cs@ == s@,
            start <= i <= cs.len(),
            body == s@.subrange(start as int, s@.len() as int),
            body == (if s@.len() > 0 && s@[0] == '+' {
                s@.drop_first()
            } else {
                s@
            }),
            forall|k: int| 0 <= k < i - start ==> is_digit(#[trigger] body[k]),
            acc as nat == if digits_value(body.subrange(0, i - start)) > 65536 {
                65536
            } else {
                digits_value(body.subrange(0, i - start))
            },
        decreases cs.len() - i,
    {
        let c = cs[i];
        if c < '0' || c > '9' {
            proof {
                assert(body[i - start] == c);
                assert(!is_digit(body[i - start]));
                assert(!all_digits(body));
            }
            return None;
        }
        let d = (c as u32) - ('0' as u32);
        proof {
            let pre = body.subrange(0, i - start);
            let post = body.subrange(0, i + 1 - start);
            assert(post.drop_last() =~= pre);
            assert(post.last() == c);
        }
        acc = if acc * 10 + d > 65536 {
            65536
        } else {
            acc * 10 + d
        };
        i = i + 1;
    }
    proof {
        assert(body.subrange(0, body.len() as int) =~= body);
    }
    if acc > 65535 {
        None
    } else {
        Some(acc as u16)
    }
}

// ---------------------------------------------------------------------------
// Ordering
// ---------------------------------------------------------------------------

/// The order of `String`s: lexicographic by character code (the same order
/// as by UTF-8 bytes).
pub open spec fn text_lt(a: Seq<char>, b: Seq<char>) -> bool
    decreases a.len(),
{
    if b.len() == 0 {
        false
    } else if a.len() == 0 {
        true
    } else if a[0] != b[0] {
        a[0] < b[0]
    } else {
        text_lt(a.drop_first(), b.drop_first())
    }
}

/// The text order is irreflexive and asymmetric.
pub proof fn lemma_text_lt_asymmetric(a: Seq<char>, b: Seq<char>)
    ensures
        !(text_lt(a, b) && text_lt(b, a)),
        !text_lt(a, a),
    decreases a.len(),
{
    if a.len() > 0 && b.len() > 0 && a[0] == b[0] {
        lemma_text_lt_asymmetric(a.drop_first(), b.drop_first());
    }
    if a.len() > 0 {
        lemma_text_lt_asymmetric(a.drop_first(), a.drop_first());
    }
}

/// The text order is transitive.
pub proof fn lemma_text_lt_transitive(a: Seq<char>, b: Seq<char>, c: Seq<char>)
    requires
        text_lt(a, b),
        text_lt(b, c),
    ensures
        text_lt(a, c),
    decreases a.len(),
{
    if a.len() > 0 && a[0] == b[0] && b[0] == c[0] {
        lemma_text_lt_transitive(a.drop_first(), b.drop_first(), c.drop_first());
    }
}

/// Two texts are equal or one is below the other.
pub proof fn lemma_text_lt_total(a: Seq<char>, b: Seq<char>)
    ensures
        a == b || text_lt(a, b) || text_lt(b, a),
    decreases a.len(),
{
    if a.len() > 0 && b.len() > 0 && a[0] == b[0] {
        lemma_text_lt_total(a.drop_first(), b.drop_first());
        if a.drop_first() == b.drop_first() {
            assert(a =~= seq![a[0]] + a.drop_first());
            assert(b =~= seq![b[0]] + b.drop_first());
        }
    } else if a.len() == 0 && b.len() == 0 {
        assert(a =~= b);
    }
}

/// Whether `a` sorts strictly before `b`.
pub fn chars_lt(a: &Vec<char>, b: &Vec<char>) -> (r: bool)
    ensures
        r == text_lt(a@, b@),
{
    let mut i: usize = 0;
    proof {
        assert(a@.subrange(0, a@.len() as int) =~= a@);
        assert(b@.subrange(0, b@.len() as int) =~= b@);
    }
    while i < a.len() && i < b.len() && a[i] == b[i]
        invariant
            i <= a.len(),
            i <= b.len(),
            text_lt(a@, b@) == text_lt(
                a@.subrange(i as int, a@.len() as int),
                b@.subrange(i as int, b@.len() as int),
            ),
        decreases a.len() - i,
    {
        proof {
            let sa = a@.subrange(i as int, a@.len() as int);
            let sb = b@.subrange(i as int, b@.len() as int);
            assert(sa.drop_first() =~= a@.subrange(i + 1, a@.len() as int));
            assert(sb.drop_first() =~= b@.subrange(i + 1, b@.len() as int));
        }
        i = i + 1;
    }
    if i == b.len() {
        false
    } else if i == a.len() {
        true
    } else {
        a[i] < b[i]
    }
}

/// Whether two texts are equal.
pub fn text_eq(a: &str, b: &str) -> (r: bool)
    ensures
        r == (a@ == b@),
{
    let ca = chars_of(a);
    let cb = chars_of(b);
    if ca.len() != cb.len() {
        return false;
    }
    let mut i: usize = 0;
    while i < ca.len()
        invariant
            ca.len() == cb.len(),
            ca@ == a@,
            cb@ == b@,
            i <= ca.len(),
            forall|k: int| 0 <= k < i ==> ca@[k] == cb@[k],
        decreases ca.len() - i,
    {
        if ca[i] != cb[i] {
            assert(a@[i as int] != b@[i as int]);
            return false;
        }
        i = i + 1;
    }
    assert(ca@ =~= cb@);
    true
}

} // verus!
