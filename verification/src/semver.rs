//! Release versions: how a release tag is normalised and compared with the
//! running version.
use vstd::prelude::*;
use crate::text::{chars_of, decimal_seq, digit_char, string_from_range};

verus! {

/// `s` without leading occurrences of `c` (`trim_start_matches(c)`).
pub open spec fn trim_start_char(s: Seq<char>, c: char) -> Seq<char>
    decreases s.len(),
{
    if s.len() > 0 && s[0] == c {
        trim_start_char(s.drop_first(), c)
    } else {
        s
    }
}

/// The text before the first `c` (the first item of `split(c)`).
pub open spec fn before_char(s: Seq<char>, c: char) -> Seq<char>
    decreases s.len(),
{
    if s.len() == 0 || s[0] == c {
        Seq::empty()
    } else {
        seq![s[0]] + before_char(s.drop_first(), c)
    }
}

/// The pieces of `s[i..]` separated by `c`, the first of them starting with `cur`.
pub open spec fn split_from(s: Seq<char>, c: char, i: int, cur: Seq<char>) -> Seq<Seq<char>>
    decreases s.len() - i,
{
    if i >= s.len() {
        seq![cur]
    } else if s[i] == c {
        seq![cur] + split_from(s, c, i + 1, Seq::empty())
    } else {
        split_from(s, c, i + 1, cur.push(s[i]))
    }
}

/// The pieces of `s` separated by `c` (`split(c)`).
pub open spec fn split_seq(s: Seq<char>, c: char) -> Seq<Seq<char>> {
    split_from(s, c, 0, Seq::empty())
}

/// A release version without its `v`/`V` prefix and pre-release suffix.
pub open spec fn normalize_semver_spec(version: Seq<char>) -> Seq<char> {
    before_char(trim_start_char(trim_start_char(version, 'v'), 'V'), '-')
}

pub open spec fn is_ascii_digit(c: char) -> bool {
    '0' <= c && c <= '9'
}

pub open spec fn all_digits(s: Seq<char>) -> bool {
    forall|i: int| 0 <= i < s.len() ==> is_ascii_digit(#[trigger] s[i])
}

/// The value of a string of decimal digits.
pub open spec fn digits_value(s: Seq<char>) -> nat
    decreases s.len(),
{
    if s.len() == 0 {
        0
    } else {
        digits_value(s.drop_last()) * 10 + ((s.last() as u32) - ('0' as u32)) as nat
    }
}

/// `str::parse::<u64>`: an optional `+`, then at least one ASCII digit, with a
/// value that fits in 64 bits.
pub open spec fn parse_u64_spec(s: Seq<char>) -> Option<u64> {
    let d = if s.len() > 0 && s[0] == '+' { s.drop_first() } else { s };
    if d.len() > 0 && all_digits(d) && digits_value(d) <= u64::MAX {
        Some(digits_value(d) as u64)
    } else {
        None
    }
}

/// The `k`-th dotted component of a version, `0` when absent.
pub open spec fn version_component(pieces: Seq<Seq<char>>, k: int) -> Seq<char> {
    if k < pieces.len() {
        pieces[k]
    } else {
        "0"@
    }
}

/// `major.minor.patch`, where missing minor and patch count as `0` and further
/// components are ignored; `None` when a component is not a number.
pub open spec fn semver_tuple_spec(version: Seq<char>) -> Option<(u64, u64, u64)> {
    let pieces = split_seq(version, '.');
    match (
        parse_u64_spec(pieces[0]),
        parse_u64_spec(version_component(pieces, 1)),
        parse_u64_spec(version_component(pieces, 2)),
    ) {
        (Some(a), Some(b), Some(c)) => Some((a, b, c)),
        _ => None,
    }
}

/// Lexicographic order on version triples.
pub open spec fn tuple_gt(a: (u64, u64, u64), b: (u64, u64, u64)) -> bool {
    a.0 > b.0 || (a.0 == b.0 && (a.1 > b.1 || (a.1 == b.1 && a.2 > b.2)))
}

/// `latest` is a strictly newer version than `current`; false when either does not parse.
pub open spec fn semver_newer_spec(latest: Seq<char>, current: Seq<char>) -> bool {
    match (semver_tuple_spec(latest), semver_tuple_spec(current)) {
        (Some(l), Some(c)) => tuple_gt(l, c),
        _ => false,
    }
}

/// Strips a release tag down to its version number.
pub fn normalize_semver(version: &str) -> (r: String)
    ensures
        r@ == normalize_semver_spec(version@),
{
    let v = chars_of(version);
    let mut i: usize = 0;
    assert(v@.skip(0) =~= v@);
    while i < v.len() && v[i] == 'v'
        invariant
            i <= v.len(),
            trim_start_char(v@, 'v') == trim_start_char(v@.skip(i as int), 'v'),
        decreases v.len() - i,
    {
        assert(v@.skip(i as int).drop_first() =~= v@.skip(i + 1));
        i += 1;
    }
    let ghost s1 = v@.skip(i as int);
    assert(trim_start_char(s1, 'v') == s1);
    let mut j: usize = i;
    while j < v.len() && v[j] == 'V'
        invariant
            i <= j <= v.len(),
            trim_start_char(s1, 'V') == trim_start_char(v@.skip(j as int), 'V'),
            s1 == v@.skip(i as int),
        decreases v.len() - j,
    {
        assert(v@.skip(j as int).drop_first() =~= v@.skip(j + 1));
        j += 1;
    }
    let ghost s2 = v@.skip(j as int);
    assert(trim_start_char(s2, 'V') == s2);
    let mut k: usize = j;
    while k < v.len() && v[k] != '-'
        invariant
            j <= k <= v.len(),
            before_char(s2, '-') == v@.subrange(j as int, k as int) + before_char(v@.skip(k as int), '-'),
            s2 == v@.skip(j as int),
        decreases v.len() - k,
    {
        proof {
            let rest = v@.skip(k as int);
            assert(rest.drop_first() =~= v@.skip(k + 1));
            assert(v@.subrange(j as int, k + 1) =~= v@.subrange(j as int, k as int) + seq![rest[0]]);
        }
        k += 1;
    }
    assert(before_char(v@.skip(k as int), '-') == Seq::<char>::empty());
    assert(v@.subrange(j as int, k as int) + Seq::<char>::empty() =~= v@.subrange(j as int, k as int));
    string_from_range(&v, j, k)
}

/// Splits `v` at every `c`.
pub fn split_chars(v: &Vec<char>, c: char) -> (pieces: Vec<Vec<char>>)
    ensures
        pieces.len() >= 1,
        pieces@.map_values(|p: Vec<char>| p@) == split_seq(v@, c),
{
    let mut pieces: Vec<Vec<char>> = Vec::new();
    let mut cur: Vec<char> = Vec::new();
    let mut i: usize = 0;
    while i < v.len()
        invariant
            i <= v.len(),
            split_seq(v@, c) == pieces@.map_values(|p: Vec<char>| p@) + split_from(v@, c, i as int, cur@),
        decreases v.len() - i,
    {
        if v[i] == c {
            let ghost before = pieces@.map_values(|p: Vec<char>| p@);
            let ghost cv = cur@;
            pieces.push(cur);
            cur = Vec::new();
            assert(pieces@.map_values(|p: Vec<char>| p@) =~= before.push(cv));
            assert(split_from(v@, c, i as int, cv) == seq![cv] + split_from(v@, c, i + 1, Seq::empty()));
            assert(before + (seq![cv] + split_from(v@, c, i + 1, Seq::empty())) =~= before.push(cv)
                + split_from(v@, c, i + 1, cur@));
        } else {
            cur.push(v[i]);
        }
        i += 1;
    }
    let ghost before = pieces@.map_values(|p: Vec<char>| p@);
    let ghost cv = cur@;
    pieces.push(cur);
    assert(pieces@.map_values(|p: Vec<char>| p@) =~= before.push(cv));
    assert(before + seq![cv] =~= before.push(cv));
    pieces
}

proof fn lemma_digits_value_step(s: Seq<char>, i: int)
    requires
        0 <= i < s.len(),
    ensures
        digits_value(s.take(i + 1)) == digits_value(s.take(i)) * 10 + ((s[i] as u32) - ('0' as u32)) as nat,
{
    assert(s.take(i + 1).drop_last() =~= s.take(i));
}

proof fn lemma_digits_value_grows(s: Seq<char>, i: int, j: int)
    requires
        0 <= i <= j <= s.len(),
        all_digits(s),
    ensures
        digits_value(s.take(i)) <= digits_value(s.take(j)),
    decreases j - i,
{
    if i < j {
        lemma_digits_value_grows(s, i, j - 1);
        lemma_digits_value_step(s, j - 1);
        assert(is_ascii_digit(s[j - 1]));
    }
}

/// `str::parse::<u64>` on the characters of `v`.
fn parse_u64_chars(v: &Vec<char>) -> (r: Option<u64>)
    ensures
        r == parse_u64_spec(v@),
{
    let start: usize = if v.len() > 0 && v[0] == '+' { 1 } else { 0 };
    let ghost d = if v@.len() > 0 && v@[0] == '+' { v@.drop_first() } else { v@ };
    assert(d =~= v@.skip(start as int));
    if start >= v.len() {
        return None;
    }
    let mut value: u64 = 0;
    let mut i: usize = start;
    assert(d.take(0) =~= Seq::<char>::empty());
    while i < v.len()
        invariant
            start <= i <= v.len(),
            start < v.len(),
            d == v@.skip(start as int),
            d == (if v@.len() > 0 && v@[0] == '+' { v@.drop_first() } else { v@ }),
            all_digits(d.take(i - start)),
            value as nat == digits_value(d.take(i - start)),
        decreases v.len() - i,
    {
        let ch = v[i];
        assert(d[i - start] == ch);
        if !('0' <= ch && ch <= '9') {
            assert(!is_ascii_digit(d[i - start]));
            assert(!all_digits(d));
            return None;
        }
        let digit = (ch as u32 - '0' as u32) as u64;
        proof {
            lemma_digits_value_step(d, i - start);
        }
        match value.checked_mul(10) {
            Some(m) => match m.checked_add(digit) {
                Some(n) => {
                    value = n;
                },
                None => {
                    proof {
                        assert(m + digit > u64::MAX);
                        assert(digits_value(d.take(i - start + 1)) > u64::MAX);
                        if all_digits(d) {
                            lemma_digits_value_grows(d, i - start + 1, d.len() as int);
                            assert(d.take(d.len() as int) =~= d);
                        }
                    }
                    return None;
                },
            },
            None => {
                proof {
                    if all_digits(d) {
                        lemma_digits_value_grows(d, i - start + 1, d.len() as int);
                        assert(d.take(d.len() as int) =~= d);
                    }
                }
                return None;
            },
        }
        i += 1;
        assert(all_digits(d.take(i - start))) by {
            assert forall|k: int| 0 <= k < i - start implies is_ascii_digit(#[trigger] d.take(i - start)[k]) by {
                if k < i - start - 1 {
                    assert(d.take(i - start)[k] == d.take(i - start - 1)[k]);
                }
            }
        }
    }
    assert(d.take(i - start) =~= d);
    Some(value)
}

/// The `(major, minor, patch)` numbers of a version; missing minor and patch
/// count as zero, and extra components are ignored.
pub fn parse_semver_tuple(version: &str) -> (r: Option<(u64, u64, u64)>)
    ensures
        r == semver_tuple_spec(version@),
{
    let v = chars_of(version);
    let pieces = split_chars(&v, '.');
    let ghost ps = split_seq(v@, '.');
    assert(ps[0] == pieces@[0]@);
    let major = match parse_u64_chars(&pieces[0]) {
        Some(x) => x,
        None => return None,
    };
    let zero = chars_of("0");
    let minor = if pieces.len() > 1 {
        assert(ps[1] == pieces@[1]@);
        parse_u64_chars(&pieces[1])
    } else {
        parse_u64_chars(&zero)
    };
    let minor = match minor {
        Some(x) => x,
        None => return None,
    };
    let patch = if pieces.len() > 2 {
        assert(ps[2] == pieces@[2]@);
        parse_u64_chars(&pieces[2])
    } else {
        parse_u64_chars(&zero)
    };
    match patch {
        Some(x) => Some((major, minor, x)),
        None => None,
    }
}

/// Whether `latest` names a strictly newer version than `current`.
pub fn is_semver_newer(latest: &str, current: &str) -> (b: bool)
    ensures
        b == semver_newer_spec(latest@, current@),
{
    match (parse_semver_tuple(latest), parse_semver_tuple(current)) {
        (Some(l), Some(c)) => l.0 > c.0 || (l.0 == c.0 && (l.1 > c.1 || (l.1 == c.1 && l.2 > c.2))),
        _ => false,
    }
}

/// The decimal rendering of a number is a non-empty string of digits whose
/// value is that number.
proof fn lemma_decimal_digits(n: nat)
    ensures
        decimal_seq(n).len() > 0,
        all_digits(decimal_seq(n)),
        digits_value(decimal_seq(n)) == n,
    decreases n,
{
    if n < 10 {
        let d = decimal_seq(n);
        assert(d =~= seq![digit_char(n)]);
        assert(d.drop_last() =~= Seq::<char>::empty());
        assert(digits_value(Seq::<char>::empty()) == 0);
        assert((digit_char(n) as u32) == 48 + n);
    } else {
        lemma_decimal_digits(n / 10);
        let d = decimal_seq(n);
        let p = decimal_seq(n / 10);
        assert(d.drop_last() =~= p);
        assert(d.last() == digit_char(n % 10));
        assert forall|i: int| 0 <= i < d.len() implies is_ascii_digit(#[trigger] d[i]) by {
            if i < p.len() {
                assert(d[i] == p[i]);
            }
        }
        assert((n / 10) * 10 + n % 10 == n);
    }
}

/// `str::parse::<u64>` gives back a number from its decimal rendering.
proof fn lemma_parse_decimal(n: u64)
    ensures
        parse_u64_spec(decimal_seq(n as nat)) == Some(n),
{
    lemma_decimal_digits(n as nat);
    assert(is_ascii_digit(decimal_seq(n as nat)[0]));
}

/// Splitting skips over a stretch that holds no separator, collecting it.
proof fn lemma_split_over_segment(s: Seq<char>, c: char, i: int, j: int, cur: Seq<char>)
    requires
        0 <= i <= j <= s.len(),
        forall|k: int| i <= k < j ==> #[trigger] s[k] != c,
    ensures
        split_from(s, c, i, cur) == split_from(s, c, j, cur + s.subrange(i, j)),
    decreases j - i,
{
    if i < j {
        lemma_split_over_segment(s, c, i + 1, j, cur.push(s[i]));
        assert(cur.push(s[i]) + s.subrange(i + 1, j) =~= cur + s.subrange(i, j));
    } else {
        assert(cur + s.subrange(i, i) =~= cur);
    }
}

/// A string of digits holds no `.`.
proof fn lemma_digits_have_no_dot(s: Seq<char>, base: Seq<char>, off: int)
    requires
        all_digits(s),
        0 <= off,
        off + s.len() <= base.len(),
        base.subrange(off, off + s.len()) == s,
    ensures
        forall|k: int| off <= k < off + s.len() ==> #[trigger] base[k] != '.',
{
    assert forall|k: int| off <= k < off + s.len() implies #[trigger] base[k] != '.' by {
        assert(base[k] == base.subrange(off, off + s.len())[k - off]);
        assert(is_ascii_digit(s[k - off]));
    }
}

/// The dotted pieces of `x.y.z`, where the three parts are digit strings.
proof fn lemma_split_three(x: Seq<char>, y: Seq<char>, z: Seq<char>)
    requires
        all_digits(x),
        all_digits(y),
        all_digits(z),
    ensures
        split_seq(x + "."@ + y + "."@ + z, '.') == seq![x, y, z],
{
    reveal_strlit(".");
    let s = x + "."@ + y + "."@ + z;
    let a = x.len() as int;
    let b = y.len() as int;
    assert(s.subrange(0, a) =~= x);
    assert(s.subrange(a + 1, a + 1 + b) =~= y);
    assert(s.subrange(a + b + 2, s.len() as int) =~= z);
    assert(s[a] == '.');
    assert(s[a + 1 + b] == '.');
    lemma_digits_have_no_dot(x, s, 0);
    lemma_digits_have_no_dot(y, s, a + 1);
    lemma_digits_have_no_dot(z, s, a + b + 2);
    lemma_split_over_segment(s, '.', 0, a, Seq::empty());
    assert(Seq::<char>::empty() + x =~= x);
    lemma_split_over_segment(s, '.', a + 1, a + 1 + b, Seq::empty());
    assert(Seq::<char>::empty() + y =~= y);
    lemma_split_over_segment(s, '.', a + b + 2, s.len() as int, Seq::empty());
    assert(Seq::<char>::empty() + z =~= z);
    assert(split_seq(s, '.') =~= seq![x] + (seq![y] + seq![z]));
}

/// The dotted pieces of `x.y`, where the two parts are digit strings.
proof fn lemma_split_two(x: Seq<char>, y: Seq<char>)
    requires
        all_digits(x),
        all_digits(y),
    ensures
        split_seq(x + "."@ + y, '.') == seq![x, y],
{
    reveal_strlit(".");
    let s = x + "."@ + y;
    let a = x.len() as int;
    assert(s.subrange(0, a) =~= x);
    assert(s.subrange(a + 1, s.len() as int) =~= y);
    assert(s[a] == '.');
    lemma_digits_have_no_dot(x, s, 0);
    lemma_digits_have_no_dot(y, s, a + 1);
    lemma_split_over_segment(s, '.', 0, a, Seq::empty());
    assert(Seq::<char>::empty() + x =~= x);
    lemma_split_over_segment(s, '.', a + 1, s.len() as int, Seq::empty());
    assert(Seq::<char>::empty() + y =~= y);
    assert(split_seq(s, '.') =~= seq![x] + seq![y]);
}

/// The single piece of `x`, a digit string.
proof fn lemma_split_one(x: Seq<char>)
    requires
        all_digits(x),
    ensures
        split_seq(x, '.') == seq![x],
{
    lemma_digits_have_no_dot(x, x, 0);
    assert(x.subrange(0, x.len() as int) =~= x);
    lemma_split_over_segment(x, '.', 0, x.len() as int, Seq::empty());
    assert(Seq::<char>::empty() + x =~= x);
}

proof fn lemma_parse_zero()
    ensures
        parse_u64_spec("0"@) == Some(0u64),
{
    reveal_strlit("0");
    assert("0"@.drop_last() =~= Seq::<char>::empty());
    assert(digits_value(Seq::<char>::empty()) == 0);
    assert(digits_value("0"@) == 0);
    assert(all_digits("0"@));
}

/// Parsing the decimal rendering `a.b.c` of three numbers gives them back.
pub proof fn lemma_semver_tuple_of_rendering(a: u64, b: u64, c: u64)
    ensures
        semver_tuple_spec(decimal_seq(a as nat) + "."@ + decimal_seq(b as nat) + "."@ + decimal_seq(c as nat))
            == Some((a, b, c)),
{
    lemma_decimal_digits(a as nat);
    lemma_decimal_digits(b as nat);
    lemma_decimal_digits(c as nat);
    lemma_parse_decimal(a);
    lemma_parse_decimal(b);
    lemma_parse_decimal(c);
    lemma_split_three(decimal_seq(a as nat), decimal_seq(b as nat), decimal_seq(c as nat));
}

/// A version written with fewer parts, `a` or `a.b`, reads as the missing
/// parts being zero.
pub proof fn lemma_semver_tuple_of_short_renderings(a: u64, b: u64)
    ensures
        semver_tuple_spec(decimal_seq(a as nat)) == Some((a, 0u64, 0u64)),
        semver_tuple_spec(decimal_seq(a as nat) + "."@ + decimal_seq(b as nat)) == Some((a, b, 0u64)),
{
    lemma_decimal_digits(a as nat);
    lemma_decimal_digits(b as nat);
    lemma_parse_decimal(a);
    lemma_parse_decimal(b);
    lemma_parse_zero();
    lemma_split_one(decimal_seq(a as nat));
    lemma_split_two(decimal_seq(a as nat), decimal_seq(b as nat));
}

/// Two versions that read as the same numbers are neither newer than the
/// other.
pub proof fn lemma_same_numbers_not_newer(x: Seq<char>, y: Seq<char>)
    requires
        semver_tuple_spec(x) == semver_tuple_spec(y),
    ensures
        !semver_newer_spec(x, y),
        !semver_newer_spec(y, x),
{
}

/// Versions that differ only in omitted zero parts (`2.0` and `2.0.0`, `2`
/// and `2.0.0`) are neither newer than the other.
pub proof fn lemma_omitted_zero_parts_not_newer(a: u64, b: u64)
    ensures
        !semver_newer_spec(
            decimal_seq(a as nat) + "."@ + decimal_seq(b as nat),
            decimal_seq(a as nat) + "."@ + decimal_seq(b as nat) + "."@ + decimal_seq(0),
        ),
        !semver_newer_spec(
            decimal_seq(a as nat) + "."@ + decimal_seq(b as nat) + "."@ + decimal_seq(0),
            decimal_seq(a as nat) + "."@ + decimal_seq(b as nat),
        ),
        !semver_newer_spec(
            decimal_seq(a as nat),
            decimal_seq(a as nat) + "."@ + decimal_seq(0) + "."@ + decimal_seq(0),
        ),
        !semver_newer_spec(
            decimal_seq(a as nat) + "."@ + decimal_seq(0) + "."@ + decimal_seq(0),
            decimal_seq(a as nat),
        ),
{
    lemma_semver_tuple_of_short_renderings(a, b);
    lemma_semver_tuple_of_rendering(a, b, 0);
    lemma_semver_tuple_of_rendering(a, 0, 0);
}

/// A version that does not parse is neither newer nor older than any other.
pub proof fn lemma_unparsable_never_newer(x: Seq<char>, y: Seq<char>)
    requires
        semver_tuple_spec(x) is None,
    ensures
        !semver_newer_spec(x, y),
        !semver_newer_spec(y, x),
{
}

/// Of two rendered versions `a.b.c` and `d.e.f`, the first is newer exactly
/// when its numbers come later in lexicographic order.
pub proof fn lemma_rendered_versions_compare(a: u64, b: u64, c: u64, d: u64, e: u64, f: u64)
    ensures
        semver_newer_spec(
            decimal_seq(a as nat) + "."@ + decimal_seq(b as nat) + "."@ + decimal_seq(c as nat),
            decimal_seq(d as nat) + "."@ + decimal_seq(e as nat) + "."@ + decimal_seq(f as nat),
        ) == tuple_gt((a, b, c), (d, e, f)),
{
    lemma_semver_tuple_of_rendering(a, b, c);
    lemma_semver_tuple_of_rendering(d, e, f);
}

/// No version is newer than itself.
pub proof fn lemma_semver_newer_irreflexive(v: Seq<char>)
    ensures
        !semver_newer_spec(v, v),
{
}

/// Of two versions, at most one is newer than the other.
pub proof fn lemma_semver_newer_asymmetric(a: Seq<char>, b: Seq<char>)
    ensures
        semver_newer_spec(a, b) ==> !semver_newer_spec(b, a),
{
}

/// Being newer is transitive.
pub proof fn lemma_semver_newer_transitive(a: Seq<char>, b: Seq<char>, c: Seq<char>)
    ensures
        semver_newer_spec(a, b) && semver_newer_spec(b, c) ==> semver_newer_spec(a, c),
{
}

/// A normalised version holds no `-`.
pub proof fn lemma_normalized_has_no_dash(version: Seq<char>)
    ensures
        !normalize_semver_spec(version).contains('-'),
{
    lemma_before_char_excludes(trim_start_char(trim_start_char(version, 'v'), 'V'), '-');
}

proof fn lemma_before_char_excludes(s: Seq<char>, c: char)
    ensures
        !before_char(s, c).contains(c),
    decreases s.len(),
{
    if s.len() > 0 && s[0] != c {
        lemma_before_char_excludes(s.drop_first(), c);
        let t = before_char(s.drop_first(), c);
        assert forall|i: int| 0 <= i < seq![s[0]].add(t).len() implies (seq![s[0]] + t)[i] != c by {
            if i > 0 {
                assert((seq![s[0]] + t)[i] == t[i - 1]);
            }
        }
    }
}

} // verus!
