//! Character-level helpers shared by the settings, validation and layout code.
use vstd::prelude::*;

verus! {

/// The Unicode `White_Space` property, which `str::trim` and `char::is_whitespace` use.
pub open spec fn is_white_space(c: char) -> bool {
    let v = c as u32;
    (0x09 <= v <= 0x0d) || v == 0x20 || v == 0x85 || v == 0xa0 || v == 0x1680 || (0x2000 <= v
        <= 0x200a) || v == 0x2028 || v == 0x2029 || v == 0x202f || v == 0x205f || v == 0x3000
}

/// `s` without its leading white space.
pub open spec fn trim_start(s: Seq<char>) -> Seq<char>
    decreases s.len(),
{
    if s.len() > 0 && is_white_space(s[0]) {
        trim_start(s.drop_first())
    } else {
        s
    }
}

/// `s` without its trailing white space.
pub open spec fn trim_end(s: Seq<char>) -> Seq<char>
    decreases s.len(),
{
    if s.len() > 0 && is_white_space(s.last()) {
        trim_end(s.drop_last())
    } else {
        s
    }
}

/// `s` without leading and trailing white space, as `str::trim` gives it.
pub open spec fn trim(s: Seq<char>) -> Seq<char> {
    trim_end(trim_start(s))
}

/// Whether `c` is one of `0`..`9`.
pub open spec fn is_ascii_digit(c: char) -> bool {
    48 <= c as u32 <= 57
}

/// Whether `c` is an ASCII letter or digit.
pub open spec fn is_ascii_alphanumeric(c: char) -> bool {
    let v = c as u32;
    (48 <= v <= 57) || (65 <= v <= 90) || (97 <= v <= 122)
}

/// Whether `c` is a hexadecimal digit.
pub open spec fn is_ascii_hex_digit(c: char) -> bool {
    let v = c as u32;
    (48 <= v <= 57) || (65 <= v <= 70) || (97 <= v <= 102)
}

/// `c` with an ASCII upper-case letter mapped to lower case.
pub open spec fn ascii_lower(c: char) -> char {
    if 65 <= c as u32 <= 90 {
        ((c as u32) + 32) as u8 as char
    } else {
        c
    }
}

/// `s` with every ASCII upper-case letter mapped to lower case.
pub open spec fn ascii_lowercase(s: Seq<char>) -> Seq<char> {
    s.map_values(|c: char| ascii_lower(c))
}

/// The decimal digit character for `d`.
pub open spec fn digit_char(d: int) -> char {
    seq!['0', '1', '2', '3', '4', '5', '6', '7', '8', '9'][d]
}

/// The decimal representation of `n`, without leading zeros.
pub open spec fn decimal_digits(n: nat) -> Seq<char>
    decreases n,
{
    if n < 10 {
        seq![digit_char(n as int)]
    } else {
        decimal_digits(n / 10).push(digit_char((n % 10) as int))
    }
}

/// The value of a string of decimal digits.
pub open spec fn digits_value(s: Seq<char>) -> nat
    decreases s.len(),
{
    if s.len() == 0 {
        0
    } else {
        digits_value(s.drop_last()) * 10 + ((s.last() as u32) - 48) as nat
    }
}

/// Whether every character of `s` is a decimal digit.
pub open spec fn all_ascii_digits(s: Seq<char>) -> bool {
    forall|i: int| 0 <= i < s.len() ==> is_ascii_digit(#[trigger] s[i])
}

/// The value of an unsigned integer written as integer `FromStr` accepts it: an optional `+`,
/// then at least one decimal digit.
pub open spec fn unsigned_decimal_value(s: Seq<char>) -> Option<nat> {
    let body = if s.len() > 0 && s[0] == '+' {
        s.drop_first()
    } else {
        s
    };
    if body.len() > 0 && all_ascii_digits(body) {
        Some(digits_value(body))
    } else {
        None
    }
}

/// What `parse` gives for an unsigned integer type whose largest value is `max`.
pub open spec fn parsed_unsigned(s: Seq<char>, max: nat) -> Option<nat> {
    match unsigned_decimal_value(s) {
        Some(v) => if v <= max {
            Some(v)
        } else {
            None
        },
        None => None,
    }
}

/// The pieces of `s` between occurrences of `sep`, as `str::split` gives them.
pub open spec fn split_on(s: Seq<char>, sep: char) -> Seq<Seq<char>>
    decreases s.len(),
{
    if s.len() == 0 {
        seq![Seq::<char>::empty()]
    } else {
        let rest = split_on(s.drop_last(), sep);
        if s.last() == sep {
            rest.push(Seq::<char>::empty())
        } else {
            rest.update(rest.len() - 1, rest.last().push(s.last()))
        }
    }
}

/// Whether `pattern` occurs in `s` at `start`.
pub open spec fn occurs_at(s: Seq<char>, pattern: Seq<char>, start: int) -> bool {
    0 <= start && start + pattern.len() <= s.len() && s.subrange(start, start + pattern.len())
        == pattern
}

/// Whether `pattern` occurs anywhere in `s`.
pub open spec fn contains_text(s: Seq<char>, pattern: Seq<char>) -> bool {
    exists|start: int| occurs_at(s, pattern, start)
}

/// `parts` joined with `sep` between each two of them.
pub open spec fn joined_with(parts: Seq<Seq<char>>, sep: char) -> Seq<char>
    decreases parts.len(),
{
    if parts.len() <= 1 {
        if parts.len() == 0 {
            Seq::empty()
        } else {
            parts[0]
        }
    } else {
        joined_with(parts.drop_last(), sep).push(sep) + parts.last()
    }
}

/// Whether no part of `parts` holds `sep`.
pub open spec fn parts_without(parts: Seq<Seq<char>>, sep: char) -> bool {
    forall|i: int, j: int| 0 <= i < parts.len() && 0 <= j < parts[i].len() ==> #[trigger] parts[i][j] != sep
}

/// A text without `sep` splits into itself alone.
proof fn lemma_split_plain(b: Seq<char>, sep: char)
    requires
        forall|j: int| 0 <= j < b.len() ==> b[j] != sep,
    ensures
        split_on(b, sep) == seq![b],
    decreases b.len(),
{
    if b.len() > 0 {
        lemma_split_plain(b.drop_last(), sep);
        assert(b.drop_last().push(b.last()) =~= b);
    } else {
        assert(b =~= Seq::<char>::empty());
    }
}

/// Text, `sep`, then text without `sep`, splits into the parts of the first and the last text.
proof fn lemma_split_append(a: Seq<char>, b: Seq<char>, sep: char)
    requires
        forall|j: int| 0 <= j < b.len() ==> b[j] != sep,
    ensures
        split_on(a.push(sep) + b, sep) == split_on(a, sep).push(b),
    decreases b.len(),
{
    let s = a.push(sep) + b;
    if b.len() == 0 {
        assert(s =~= a.push(sep));
        assert(s.drop_last() =~= a);
        assert(b =~= Seq::<char>::empty());
    } else {
        lemma_split_append(a, b.drop_last(), sep);
        assert(s.drop_last() =~= a.push(sep) + b.drop_last());
        assert(s.last() == b.last());
        assert(b.drop_last().push(b.last()) =~= b);
        let rest = split_on(a, sep).push(b.drop_last());
        assert(rest.update(rest.len() - 1, rest.last().push(s.last())) =~= split_on(a, sep).push(b));
    }
}

/// Parts without `sep`, joined with it, split back into those parts; the joined text begins with
/// the first part's first character and ends with the last part's last one where those parts
/// are not empty.
pub proof fn lemma_split_joined(parts: Seq<Seq<char>>, sep: char)
    requires
        parts.len() >= 1,
        parts_without(parts, sep),
    ensures
        split_on(joined_with(parts, sep), sep) == parts,
        parts[0].len() > 0 ==> joined_with(parts, sep).len() > 0 && joined_with(parts, sep)[0]
            == parts[0][0],
        parts.last().len() > 0 ==> joined_with(parts, sep).len() > 0 && joined_with(parts, sep).last()
            == parts.last().last(),
    decreases parts.len(),
{
    if parts.len() == 1 {
        assert forall|j: int| 0 <= j < parts[0].len() implies parts[0][j] != sep by {
            assert(parts[0][j] != sep);
        }
        lemma_split_plain(parts[0], sep);
        assert(seq![parts[0]] =~= parts);
    } else {
        let prefix = parts.drop_last();
        assert(parts_without(prefix, sep)) by {
            assert forall|i: int, j: int|
                0 <= i < prefix.len() && 0 <= j < prefix[i].len() implies #[trigger] prefix[i][j]
                != sep by {
                assert(prefix[i] == parts[i]);
            }
        }
        lemma_split_joined(prefix, sep);
        let g = parts.last();
        assert forall|j: int| 0 <= j < g.len() implies g[j] != sep by {
            assert(parts[parts.len() - 1][j] != sep);
        }
        lemma_split_append(joined_with(prefix, sep), g, sep);
        assert(prefix.push(g) =~= parts);
        assert(prefix[0] == parts[0]);
        let a = joined_with(prefix, sep);
        if parts[0].len() > 0 {
            assert((a.push(sep) + g)[0] == a[0]);
        }
        if g.len() > 0 {
            assert((a.push(sep) + g).last() == g.last());
        }
    }
}

/// Joining parts that are neither empty nor hold `sep` never puts two `sep`s side by side.
pub proof fn lemma_joined_no_double(parts: Seq<Seq<char>>, sep: char)
    requires
        parts.len() >= 1,
        parts_without(parts, sep),
        forall|i: int| 0 <= i < parts.len() ==> (#[trigger] parts[i]).len() > 0,
    ensures
        forall|i: int|
            0 <= i && i + 1 < joined_with(parts, sep).len() ==> !(#[trigger] joined_with(parts, sep)[i]
                == sep && joined_with(parts, sep)[i + 1] == sep),
    decreases parts.len(),
{
    let s = joined_with(parts, sep);
    if parts.len() == 1 {
        assert forall|i: int| 0 <= i && i + 1 < s.len() implies !(#[trigger] s[i] == sep && s[i + 1]
            == sep) by {
            assert(parts[0][i] != sep);
        }
    } else {
        let prefix = parts.drop_last();
        assert(parts_without(prefix, sep)) by {
            assert forall|i: int, j: int|
                0 <= i < prefix.len() && 0 <= j < prefix[i].len() implies #[trigger] prefix[i][j]
                != sep by {
                assert(prefix[i] == parts[i]);
            }
        }
        assert forall|i: int| 0 <= i < prefix.len() implies (#[trigger] prefix[i]).len() > 0 by {
            assert(prefix[i] == parts[i]);
        }
        lemma_joined_no_double(prefix, sep);
        lemma_split_joined(prefix, sep);
        let a = joined_with(prefix, sep);
        let g = parts.last();
        assert(g.len() > 0);
        assert(a.last() != sep) by {
            assert(prefix.last() == parts[parts.len() - 2]);
            assert(prefix.last().last() == parts[parts.len() - 2][parts[parts.len() - 2].len() - 1]);
        }
        assert forall|i: int| 0 <= i && i + 1 < s.len() implies !(#[trigger] s[i] == sep && s[i + 1]
            == sep) by {
            let n = a.len() as int;
            if i + 1 < n {
                assert(s[i] == a[i] && s[i + 1] == a[i + 1]);
            } else if i + 1 == n {
                assert(s[i] == a[i]);
                assert(a[i] == a.last());
            } else if i == n {
                assert(s[i + 1] == g[0]);
                assert(parts[parts.len() - 1][0] != sep);
            } else {
                assert(s[i] == g[i - n - 1]);
                assert(parts[parts.len() - 1][i - n - 1] != sep);
            }
        }
    }
}

/// The views of a sequence of character vectors.
pub open spec fn char_vec_views(v: Seq<Vec<char>>) -> Seq<Seq<char>> {
    v.map_values(|x: Vec<char>| x@)
}

/// Splitting gives at least one part, and at most one more than there are characters.
pub proof fn lemma_split_on_len(s: Seq<char>, sep: char)
    ensures
        1 <= split_on(s, sep).len() <= s.len() + 1,
    decreases s.len(),
{
    if s.len() > 0 {
        lemma_split_on_len(s.drop_last(), sep);
    }
}

/// What `trim_start` leaves does not begin with white space.
proof fn lemma_trim_start_clean(s: Seq<char>)
    ensures
        trim_start(s).len() > 0 ==> !is_white_space(trim_start(s)[0]),
    decreases s.len(),
{
    if s.len() > 0 && is_white_space(s[0]) {
        lemma_trim_start_clean(s.drop_first());
    }
}

/// What `trim_end` leaves is a prefix of its argument without trailing white space, and it keeps
/// a first character that is not white space.
proof fn lemma_trim_end_shape(s: Seq<char>)
    ensures
        trim_end(s).len() <= s.len(),
        trim_end(s) == s.take(trim_end(s).len() as int),
        trim_end(s).len() > 0 ==> !is_white_space(trim_end(s).last()),
        s.len() > 0 && !is_white_space(s[0]) ==> trim_end(s).len() > 0,
    decreases s.len(),
{
    if s.len() > 0 && is_white_space(s.last()) {
        lemma_trim_end_shape(s.drop_last());
        assert(s.drop_last().take(trim_end(s).len() as int) == s.take(trim_end(s).len() as int));
    } else {
        assert(s.take(s.len() as int) == s);
    }
}

/// Trimming what was trimmed changes nothing.
pub proof fn lemma_trim_idempotent(s: Seq<char>)
    ensures
        trim(trim(s)) == trim(s),
{
    let t = trim(s);
    lemma_trim_start_clean(s);
    lemma_trim_end_shape(trim_start(s));
    if t.len() > 0 {
        assert(t[0] == trim_start(s)[0]);
    }
    assert(trim_start(t) == t);
    lemma_trim_end_shape(t);
    assert(trim_end(t) == t);
}

proof fn lemma_digit_char(d: int)
    requires
        0 <= d < 10,
    ensures
        digit_char(d) as u32 == 48 + d,
{
    let digits = seq!['0', '1', '2', '3', '4', '5', '6', '7', '8', '9'];
    assert(digits[0] == '0' && digits[1] == '1' && digits[2] == '2' && digits[3] == '3' && digits[4]
        == '4' && digits[5] == '5' && digits[6] == '6' && digits[7] == '7' && digits[8] == '8'
        && digits[9] == '9');
}

/// The decimal representation of `n` reads back as `n`: it is all digits, has no white space to
/// trim, and parses to `n` wherever `n` fits.
pub proof fn lemma_decimal_digits_parse(n: nat, max: nat)
    ensures
        decimal_digits(n).len() > 0,
        all_ascii_digits(decimal_digits(n)),
        digits_value(decimal_digits(n)) == n,
        trim(decimal_digits(n)) == decimal_digits(n),
        n <= max ==> parsed_unsigned(trim(decimal_digits(n)), max) == Some(n),
    decreases n,
{
    let dd = decimal_digits(n);
    if n < 10 {
        lemma_digit_char(n as int);
        assert(dd.drop_last() == Seq::<char>::empty());
        assert(digits_value(dd.drop_last()) == 0);
        assert(digits_value(dd) == n);
    } else {
        lemma_decimal_digits_parse(n / 10, max);
        lemma_digit_char((n % 10) as int);
        assert(dd.drop_last() == decimal_digits(n / 10));
        assert(dd[0] == decimal_digits(n / 10)[0]);
        assert(dd.last() == digit_char((n % 10) as int));
        assert((n / 10) * 10 + n % 10 == n);
        assert(digits_value(dd) == n);
    }
    assert(all_ascii_digits(dd));
    assert(!is_white_space(dd[0]));
    assert(!is_white_space(dd.last()));
    assert(trim_start(dd) == dd);
    assert(trim_end(dd) == dd);
    assert(dd[0] != '+');
    assert(unsigned_decimal_value(dd) == Some(n));
}

proof fn lemma_digits_value_prefix(t: Seq<char>, k: int)
    requires
        0 <= k <= t.len(),
    ensures
        digits_value(t.take(k)) <= digits_value(t),
    decreases t.len(),
{
    if k < t.len() {
        assert(t.drop_last().take(k) == t.take(k));
        lemma_digits_value_prefix(t.drop_last(), k);
    } else {
        assert(t.take(k) == t);
    }
}

/// Whether `c` is a Unicode white-space character.
pub fn is_white_space_char(c: char) -> (r: bool)
    ensures
        r == is_white_space(c),
{
    let v = c as u32;
    (0x09 <= v && v <= 0x0d) || v == 0x20 || v == 0x85 || v == 0xa0 || v == 0x1680 || (0x2000
        <= v && v <= 0x200a) || v == 0x2028 || v == 0x2029 || v == 0x202f || v == 0x205f || v
        == 0x3000
}

/// Whether `c` is one of `0`..`9`.
pub fn is_ascii_digit_char(c: char) -> (r: bool)
    ensures
        r == is_ascii_digit(c),
{
    let v = c as u32;
    48 <= v && v <= 57
}

/// Whether `c` is an ASCII letter or digit.
pub fn is_ascii_alphanumeric_char(c: char) -> (r: bool)
    ensures
        r == is_ascii_alphanumeric(c),
{
    let v = c as u32;
    (48 <= v && v <= 57) || (65 <= v && v <= 90) || (97 <= v && v <= 122)
}

/// Whether `c` is a hexadecimal digit.
pub fn is_ascii_hex_digit_char(c: char) -> (r: bool)
    ensures
        r == is_ascii_hex_digit(c),
{
    let v = c as u32;
    (48 <= v && v <= 57) || (65 <= v && v <= 70) || (97 <= v && v <= 102)
}

/// The characters of `s`, in order.
pub fn chars_of(s: &str) -> (v: Vec<char>)
    ensures
        v@ == s@,
{
    broadcast use vstd::string::group_string_axioms;

    let mut v: Vec<char> = Vec::new();
    for c in it: s.chars()
        invariant
            it.seq() == s@,
            v@ == s@.take(it.index() as int),
    {
        v.push(c);
    }
    assert(v@ == s@);
    v
}

/// `FromIterator<char> for String`: a new `String` holding `chars`, in order.
#[verifier::external_body]
pub(crate) fn string_from_chars(chars: &[char]) -> (s: String)
    ensures
        s@ == chars@,
{
    chars.iter().collect()
}

/// A copy of `s[start..end]`.
pub fn copy_range(s: &Vec<char>, start: usize, end: usize) -> (r: Vec<char>)
    requires
        start <= end <= s.len(),
    ensures
        r@ == s@.subrange(start as int, end as int),
{
    let mut r: Vec<char> = Vec::new();
    let mut i = start;
    while i < end
        invariant
            start <= i <= end <= s.len(),
            r@ == s@.subrange(start as int, i as int),
        decreases end - i,
    {
        r.push(s[i]);
        i += 1;
    }
    r
}

/// `s` without leading and trailing white space.
pub fn trim_chars(s: &Vec<char>) -> (r: Vec<char>)
    ensures
        r@ == trim(s@),
{
    let n = s.len();
    let mut start: usize = 0;
    assert(s@.subrange(0, n as int) == s@);
    while start < n && is_white_space_char(s[start])
        invariant
            start <= n == s.len(),
            trim_start(s@) == trim_start(s@.subrange(start as int, n as int)),
        decreases n - start,
    {
        assert(s@.subrange(start as int, n as int).drop_first() == s@.subrange(
            start as int + 1,
            n as int,
        ));
        start += 1;
    }
    let mut end: usize = n;
    while end > start && is_white_space_char(s[end - 1])
        invariant
            start <= end <= n == s.len(),
            trim_start(s@) == s@.subrange(start as int, n as int),
            trim(s@) == trim_end(s@.subrange(start as int, end as int)),
        decreases end,
    {
        assert(s@.subrange(start as int, end as int).drop_last() == s@.subrange(
            start as int,
            end as int - 1,
        ));
        end -= 1;
    }
    copy_range(s, start, end)
}

/// `s` without leading and trailing white space, as a new `String`.
pub fn trimmed_string(s: &str) -> (r: String)
    ensures
        r@ == trim(s@),
{
    let chars = chars_of(s);
    let trimmed = trim_chars(&chars);
    string_from_chars(trimmed.as_slice())
}

/// Whether two character sequences are equal.
pub fn chars_equal(a: &[char], b: &[char]) -> (r: bool)
    ensures
        r == (a@ == b@),
{
    if a.len() != b.len() {
        return false;
    }
    let mut i: usize = 0;
    while i < a.len()
        invariant
            i <= a.len() == b.len(),
            forall|j: int| 0 <= j < i ==> a@[j] == b@[j],
        decreases a.len() - i,
    {
        if a[i] != b[i] {
            return false;
        }
        i += 1;
    }
    assert(a@ == b@);
    true
}

/// Whether the text of `s` equals `literal`.
pub fn text_equals(s: &Vec<char>, literal: &str) -> (r: bool)
    ensures
        r == (s@ == literal@),
{
    let other = chars_of(literal);
    chars_equal(s.as_slice(), other.as_slice())
}

/// Whether two texts are equal.
pub fn str_equal(a: &str, b: &str) -> (r: bool)
    ensures
        r == (a@ == b@),
{
    let x = chars_of(a);
    let y = chars_of(b);
    chars_equal(x.as_slice(), y.as_slice())
}

/// `s` with every ASCII upper-case letter mapped to lower case.
pub fn ascii_lowercase_chars(s: &Vec<char>) -> (r: Vec<char>)
    ensures
        r@ == ascii_lowercase(s@),
{
    let mut r: Vec<char> = Vec::new();
    let mut i: usize = 0;
    while i < s.len()
        invariant
            i <= s.len(),
            r@ == ascii_lowercase(s@.take(i as int)),
        decreases s.len() - i,
    {
        let c = s[i];
        let v = c as u32;
        let lower = if 65 <= v && v <= 90 {
            (v + 32) as u8 as char
        } else {
            c
        };
        r.push(lower);
        assert(ascii_lowercase(s@.take(i as int + 1)) == ascii_lowercase(s@.take(i as int)).push(
            ascii_lower(c),
        ));
        i += 1;
    }
    assert(s@.take(s.len() as int) == s@);
    r
}

/// The decimal digit character for `d`.
pub fn digit_to_char(d: u64) -> (c: char)
    requires
        d < 10,
    ensures
        c == digit_char(d as int),
{
    match d {
        0 => '0',
        1 => '1',
        2 => '2',
        3 => '3',
        4 => '4',
        5 => '5',
        6 => '6',
        7 => '7',
        8 => '8',
        _ => '9',
    }
}

/// Appends the decimal representation of `n` to `out`.
pub fn push_decimal(n: u64, out: &mut Vec<char>)
    ensures
        final(out)@ == old(out)@ + decimal_digits(n as nat),
    decreases n,
{
    if n >= 10 {
        push_decimal(n / 10, out);
    }
    out.push(digit_to_char(n % 10));
}

/// The decimal representation of `n`, as `to_string` writes an unsigned integer.
pub fn decimal_string(n: u64) -> (r: String)
    ensures
        r@ == decimal_digits(n as nat),
{
    let mut out: Vec<char> = Vec::new();
    push_decimal(n, &mut out);
    string_from_chars(out.as_slice())
}

/// Parses an unsigned decimal integer no larger than `max`, as `parse` does for `u16` and `u32`.
pub fn parse_unsigned_decimal(s: &Vec<char>, max: u64) -> (r: Option<u64>)
    requires
        max <= u32::MAX,
    ensures
        r matches Some(v) ==> parsed_unsigned(s@, max as nat) == Some(v as nat),
        r is None ==> parsed_unsigned(s@, max as nat) is None,
{
    let n = s.len();
    let mut start: usize = 0;
    if n > 0 && s[0] == '+' {
        start = 1;
    }
    let ghost body = if s@.len() > 0 && s@[0] == '+' {
        s@.drop_first()
    } else {
        s@
    };
    assert(body == s@.subrange(start as int, n as int));
    if start >= n {
        return None;
    }
    let mut value: u64 = 0;
    let mut i = start;
    while i < n
        invariant
            start <= i <= n == s.len(),
            body == s@.subrange(start as int, n as int),
            body == (if s@.len() > 0 && s@[0] == '+' {
                s@.drop_first()
            } else {
                s@
            }),
            value as nat == digits_value(s@.subrange(start as int, i as int)),
            value <= max <= u32::MAX,
            all_ascii_digits(s@.subrange(start as int, i as int)),
        decreases n - i,
    {
        let c = s[i];
        if !is_ascii_digit_char(c) {
            assert(body[i - start] == c);
            assert(!all_ascii_digits(body));
            return None;
        }
        let next = value * 10 + ((c as u32) - 48) as u64;
        let ghost prefix = s@.subrange(start as int, i as int + 1);
        assert(prefix.drop_last() == s@.subrange(start as int, i as int));
        assert(all_ascii_digits(prefix));
        if next > max {
            proof {
                assert(digits_value(prefix) == value * 10 + ((c as u32) - 48));
                if all_ascii_digits(body) {
                    assert(body.take(i - start + 1) == prefix);
                    lemma_digits_value_prefix(body, i - start + 1);
                    assert(digits_value(body) > max);
                }
            }
            return None;
        }
        value = next;
        i += 1;
    }
    Some(value)
}

/// Whether `pattern` occurs in `s` at `start`.
fn occurs_at_exec(s: &Vec<char>, pattern: &Vec<char>, start: usize) -> (r: bool)
    requires
        start + pattern.len() <= s.len(),
    ensures
        r == occurs_at(s@, pattern@, start as int),
{
    let mut k: usize = 0;
    while k < pattern.len()
        invariant
            k <= pattern.len(),
            start + pattern.len() <= s.len(),
            forall|j: int| 0 <= j < k ==> s@[start + j] == pattern@[j],
        decreases pattern.len() - k,
    {
        if s[start + k] != pattern[k] {
            assert(s@.subrange(start as int, start + pattern.len())[k as int] != pattern@[k as int]);
            return false;
        }
        k += 1;
    }
    assert(s@.subrange(start as int, start + pattern.len()) == pattern@);
    true
}

/// Whether the text `pattern` occurs anywhere in `s`.
pub fn contains_str(s: &Vec<char>, pattern: &str) -> (r: bool)
    ensures
        r == contains_text(s@, pattern@),
{
    let p = chars_of(pattern);
    contains_chars(s, &p)
}

/// Whether `pattern` occurs anywhere in `s`, as `str::contains` answers.
pub fn contains_chars(s: &Vec<char>, pattern: &Vec<char>) -> (r: bool)
    ensures
        r == contains_text(s@, pattern@),
{
    if pattern.len() > s.len() {
        return false;
    }
    let last = s.len() - pattern.len();
    let mut start: usize = 0;
    while start <= last
        invariant
            last == s.len() - pattern.len(),
            forall|j: int| 0 <= j < start ==> !occurs_at(s@, pattern@, j),
        decreases last + 1 - start,
    {
        if occurs_at_exec(s, pattern, start) {
            return true;
        }
        if start == last {
            assert forall|j: int| #![trigger occurs_at(s@, pattern@, j)] !occurs_at(s@, pattern@, j) by {
                if 0 <= j <= last {
                } 
            }
            return false;
        }
        start += 1;
    }
    false
}

/// The pieces of `s` between occurrences of `sep`.
pub fn split_chars(s: &Vec<char>, sep: char) -> (parts: Vec<Vec<char>>)
    ensures
        char_vec_views(parts@) == split_on(s@, sep),
{
    let mut parts: Vec<Vec<char>> = Vec::new();
    let mut current: Vec<char> = Vec::new();
    let mut i: usize = 0;
    assert(s@.take(0) == Seq::<char>::empty());
    while i < s.len()
        invariant
            i <= s.len(),
            split_on(s@.take(i as int), sep) == char_vec_views(parts@).push(current@),
        decreases s.len() - i,
    {
        let c = s[i];
        let ghost before = s@.take(i as int);
        assert(s@.take(i as int + 1).drop_last() == before);
        if c == sep {
            parts.push(current);
            current = Vec::new();
            assert(char_vec_views(parts@) == split_on(before, sep));
        } else {
            current.push(c);
            assert(split_on(s@.take(i as int + 1), sep) == char_vec_views(parts@).push(current@));
        }
        i += 1;
    }
    parts.push(current);
    assert(s@.take(s.len() as int) == s@);
    parts
}

} // verus!
