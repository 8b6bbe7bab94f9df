//! Canonical forms of literals: digit grouping for integers, trimmed
//! fractions for floats, quoted strings, and decimal numbers.

use vstd::prelude::*;
use vstd::string::*;
use ecow::EcoString;
use crate::pretty::{eco_text, has_newline, text, Doc, Document};

verus! {

/// The first `n` characters of `s` without the underscores among them.
pub open spec fn digits_upto(s: Seq<char>, n: int) -> Seq<char>
    decreases n,
{
    if n <= 0 {
        Seq::empty()
    } else if s[n - 1] == '_' {
        digits_upto(s, n - 1)
    } else {
        digits_upto(s, n - 1).push(s[n - 1])
    }
}

/// `s` without its underscores.
pub open spec fn digits(s: Seq<char>) -> Seq<char> {
    digits_upto(s, s.len() as int)
}

/// Whether an underscore follows the `k`-th character of `d`: it does after
/// every third character counted from the right, but not after a minus sign
/// and not after the last character.
pub open spec fn separated(d: Seq<char>, k: int) -> bool {
    let from_right = d.len() - 1 - k;
    from_right % 3 == 0 && d[k] != '-' && from_right != 0
}

/// The first `n` characters of `d`, each with the underscore that follows it.
pub open spec fn grouped_upto(d: Seq<char>, n: int) -> Seq<char>
    decreases n,
{
    if n <= 0 {
        Seq::empty()
    } else {
        let before = grouped_upto(d, n - 1).push(d[n - 1]);
        if separated(d, n - 1) {
            before.push('_')
        } else {
            before
        }
    }
}

/// How many characters a literal needs before its digits are grouped.
pub open spec fn watershed(value: Seq<char>) -> int {
    if value.len() > 0 && value[0] == '-' {
        6
    } else {
        5
    }
}

/// A decimal integer literal in canonical form: its underscores are dropped,
/// and if at least `watershed` characters are left they are grouped in threes
/// from the right.
pub open spec fn underscored(value: Seq<char>) -> Seq<char> {
    let d = digits(value);
    if d.len() >= watershed(value) {
        grouped_upto(d, d.len() as int)
    } else {
        d
    }
}

/// Whether the literal starts with `0x`, `0b` or `0o`.
pub open spec fn has_radix_prefix(value: Seq<char>) -> bool {
    value.len() >= 2 && value[0] == '0' && (value[1] == 'x' || value[1] == 'b' || value[1] == 'o')
}

/// An integer literal in canonical form: one with a radix prefix as it is,
/// any other with its digits grouped.
pub open spec fn int_text(value: Seq<char>) -> Seq<char> {
    if has_radix_prefix(value) {
        value
    } else {
        underscored(value)
    }
}

/// The index of the first `c` in `s`, or the length of `s` if there is none.
pub open spec fn first_index(s: Seq<char>, c: char) -> int
    decreases s.len(),
{
    if s.len() == 0 || s[0] == c {
        0
    } else {
        1 + first_index(s.drop_first(), c)
    }
}

/// `s` without the zeros at its end.
pub open spec fn trim_zeros(s: Seq<char>) -> Seq<char>
    decreases s.len(),
{
    if s.len() > 0 && s.last() == '0' {
        trim_zeros(s.drop_last())
    } else {
        s
    }
}

/// The part of a float literal before its first dot.
pub open spec fn float_whole(value: Seq<char>) -> Seq<char> {
    value.take(first_index(value, '.'))
}

/// The part of a float literal after its first dot.
pub open spec fn float_rest(value: Seq<char>) -> Seq<char> {
    let dot = first_index(value, '.');
    if dot < value.len() {
        value.skip(dot + 1)
    } else {
        Seq::empty()
    }
}

/// The fractional digits of a float literal in canonical form: those before
/// the exponent, without the zeros at their end, and `0` if none are left.
pub open spec fn float_fraction(value: Seq<char>) -> Seq<char> {
    let rest = float_rest(value);
    let trimmed = trim_zeros(rest.take(first_index(rest, 'e')));
    if trimmed.len() == 0 {
        seq!['0']
    } else {
        trimmed
    }
}

/// The exponent of a float literal, from its `e` on.
pub open spec fn float_exponent(value: Seq<char>) -> Seq<char> {
    let rest = float_rest(value);
    rest.skip(first_index(rest, 'e'))
}

/// A float literal in canonical form.
pub open spec fn float_text(value: Seq<char>) -> Seq<char> {
    underscored(float_whole(value)) + seq!['.'] + float_fraction(value) + float_exponent(value)
}

/// The document of an integer literal.
pub open spec fn int_doc(value: Seq<char>) -> Doc {
    Doc::text(int_text(value))
}

/// The document of a float literal.
pub open spec fn float_doc(value: Seq<char>) -> Doc {
    Doc::text(underscored(float_whole(value))).append(Doc::text("."@)).append(
        Doc::text(float_fraction(value)),
    ).append(Doc::text(float_exponent(value)))
}

/// The document of a string literal: the text between quotes, with its breaks
/// forced where it holds a newline.
pub open spec fn string_doc(value: Seq<char>) -> Doc {
    let doc = Doc::text(value).surround("\""@, "\""@);
    if value.contains('\n') {
        doc.force_break()
    } else {
        doc
    }
}

/// The character of a decimal digit.
pub open spec fn digit_char(d: nat) -> char {
    if d == 0 {
        '0'
    } else if d == 1 {
        '1'
    } else if d == 2 {
        '2'
    } else if d == 3 {
        '3'
    } else if d == 4 {
        '4'
    } else if d == 5 {
        '5'
    } else if d == 6 {
        '6'
    } else if d == 7 {
        '7'
    } else if d == 8 {
        '8'
    } else {
        '9'
    }
}

/// A natural number in decimal.
pub open spec fn decimal(n: nat) -> Seq<char>
    decreases n,
{
    if n < 10 {
        seq![digit_char(n)]
    } else {
        decimal(n / 10).push(digit_char(n % 10))
    }
}

/// The characters of a string.
pub fn chars_of(s: &str) -> (r: Vec<char>)
    ensures
        r@ == s@,
{
    let mut out: Vec<char> = Vec::new();
    for c in it: s.chars()
        invariant
            out@ == s@.take(it.index() as int),
            it.seq() == s@,
    {
        out.push(c);
    }
    out
}

/// Calls `EcoString::from_iter` of the ecow crate on the characters: the
/// string that holds them in their order.
#[verifier::external_body]
fn collected(chars: &Vec<char>) -> (r: EcoString)
    ensures
        eco_text(r) == chars@,
{
    EcoString::from_iter(chars.iter().copied())
}

/// The first index of `c`, found one character at a time.
proof fn first_index_step(s: Seq<char>, c: char, i: int)
    requires
        0 <= i <= s.len(),
        first_index(s, c) == i + first_index(s.skip(i), c),
    ensures
        i < s.len() && s[i] != c ==> first_index(s, c) == i + 1 + first_index(s.skip(i + 1), c),
        i == s.len() || s[i] == c ==> first_index(s, c) == i,
{
    if i < s.len() {
        assert(s.skip(i).drop_first() == s.skip(i + 1));
        assert(s.skip(i)[0] == s[i]);
    }
}

/// The index of the first `c` among `chars[from..to]`, counted from `from`.
fn find(chars: &Vec<char>, from: usize, to: usize, c: char) -> (r: usize)
    requires
        from <= to <= chars@.len(),
    ensures
        r == first_index(chars@.subrange(from as int, to as int), c),
        from + r <= to,
{
    let ghost s = chars@.subrange(from as int, to as int);
    let mut i: usize = 0;
    proof {
        assert(s.skip(0) == s);
    }
    while from + i < to && chars[from + i] != c
        invariant
            from + i <= to <= chars@.len(),
            s == chars@.subrange(from as int, to as int),
            first_index(s, c) == i + first_index(s.skip(i as int), c),
        decreases to - from - i,
    {
        proof {
            first_index_step(s, c, i as int);
        }
        i += 1;
    }
    proof {
        first_index_step(s, c, i as int);
    }
    i
}

/// The characters `chars[from..to]`.
fn slice_of(chars: &Vec<char>, from: usize, to: usize) -> (r: Vec<char>)
    requires
        from <= to <= chars@.len(),
    ensures
        r@ == chars@.subrange(from as int, to as int),
{
    let mut out: Vec<char> = Vec::new();
    let mut i: usize = from;
    while i < to
        invariant
            from <= i <= to <= chars@.len(),
            out@ == chars@.subrange(from as int, i as int),
        decreases to - i,
    {
        out.push(chars[i]);
        i += 1;
    }
    out
}

/// The digits regrouped in threes.
fn underscored_chars(raw: &Vec<char>) -> (r: Vec<char>)
    ensures
        r@ == underscored(raw@),
{
    let mut kept: Vec<char> = Vec::new();
    let mut i: usize = 0;
    while i < raw.len()
        invariant
            i <= raw@.len(),
            kept@ == digits_upto(raw@, i as int),
        decreases raw@.len() - i,
    {
        if raw[i] != '_' {
            kept.push(raw[i]);
        }
        i += 1;
    }
    let limit: usize = if raw.len() > 0 && raw[0] == '-' {
        6
    } else {
        5
    };
    if kept.len() < limit {
        return kept;
    }
    let n = kept.len();
    let mut out: Vec<char> = Vec::new();
    let mut k: usize = 0;
    while k < n
        invariant
            k <= n,
            n == kept@.len(),
            out@ == grouped_upto(kept@, k as int),
        decreases n - k,
    {
        out.push(kept[k]);
        let from_right = n - 1 - k;
        if from_right % 3 == 0 && kept[k] != '-' && from_right != 0 {
            out.push('_');
        }
        k += 1;
    }
    out
}

/// A decimal integer literal with its digits grouped.
pub fn underscore_integer_string<'a>(value: &str) -> (r: Document<'a>)
    ensures
        r@ == Doc::text(underscored(value@)),
{
    let raw = chars_of(value);
    Document::EcoString(collected(&underscored_chars(&raw)))
}

/// An integer literal.
pub fn int_<'a>(value: &'a str) -> (r: Document<'a>)
    ensures
        r@ == int_doc(value@),
{
    let raw = chars_of(value);
    if raw.len() >= 2 && raw[0] == '0' && (raw[1] == 'x' || raw[1] == 'b' || raw[1] == 'o') {
        text(value)
    } else {
        Document::EcoString(collected(&underscored_chars(&raw)))
    }
}

/// Where the characters end once their trailing zeros are dropped.
fn trimmed_end(chars: &Vec<char>) -> (r: usize)
    ensures
        r <= chars@.len(),
        chars@.take(r as int) == trim_zeros(chars@),
{
    let mut end: usize = chars.len();
    proof {
        assert(chars@.take(end as int) == chars@);
    }
    while end > 0 && chars[end - 1] == '0'
        invariant
            end <= chars@.len(),
            trim_zeros(chars@) == trim_zeros(chars@.take(end as int)),
        decreases end,
    {
        proof {
            assert(chars@.take(end as int).drop_last() == chars@.take(end - 1));
        }
        end -= 1;
    }
    end
}

/// A float literal.
pub fn float<'a>(value: &str) -> (r: Document<'a>)
    ensures
        r@ == float_doc(value@),
{
    let raw = chars_of(value);
    let dot = find(&raw, 0, raw.len(), '.');
    assert(raw@.subrange(0, raw@.len() as int) == raw@);
    let whole = slice_of(&raw, 0, dot);
    assert(whole@ == float_whole(value@));
    let rest = if dot < raw.len() {
        assert(raw@.subrange(dot + 1, raw@.len() as int) == raw@.skip(dot + 1));
        slice_of(&raw, dot + 1, raw.len())
    } else {
        Vec::new()
    };
    assert(rest@ == float_rest(value@));
    let e = find(&rest, 0, rest.len(), 'e');
    assert(rest@.subrange(0, rest@.len() as int) == rest@);
    let fraction = slice_of(&rest, 0, e);
    let end = trimmed_end(&fraction);
    let mut fraction = slice_of(&fraction, 0, end);
    if fraction.len() == 0 {
        fraction.push('0');
    }
    assert(fraction@ == float_fraction(value@));
    let exponent = slice_of(&rest, e, rest.len());
    assert(exponent@ == float_exponent(value@));
    Document::EcoString(collected(&underscored_chars(&whole))).append(text(".")).append(
        Document::EcoString(collected(&fraction)),
    ).append(Document::EcoString(collected(&exponent)))
}

/// A string literal.
pub fn string<'a>(value: &'a str) -> (r: Document<'a>)
    ensures
        r@ == string_doc(value@),
{
    let multiline = has_newline(value);
    let doc = text(value).surround("\"", "\"");
    if multiline {
        doc.force_break()
    } else {
        doc
    }
}

/// The character of a decimal digit.
fn digit(d: u64) -> (r: char)
    requires
        d < 10,
    ensures
        r == digit_char(d as nat),
{
    if d == 0 {
        '0'
    } else if d == 1 {
        '1'
    } else if d == 2 {
        '2'
    } else if d == 3 {
        '3'
    } else if d == 4 {
        '4'
    } else if d == 5 {
        '5'
    } else if d == 6 {
        '6'
    } else if d == 7 {
        '7'
    } else if d == 8 {
        '8'
    } else {
        '9'
    }
}

/// Appends `n` in decimal.
fn push_decimal(out: &mut Vec<char>, n: u64)
    ensures
        final(out)@ == old(out)@ + decimal(n as nat),
    decreases n,
{
    if n >= 10 {
        push_decimal(out, n / 10);
    }
    out.push(digit(n % 10));
}

/// A number in decimal.
pub fn number<'a>(n: u64) -> (r: Document<'a>)
    ensures
        r@ == Doc::text(decimal(n as nat)),
{
    let mut out: Vec<char> = Vec::new();
    push_decimal(&mut out, n);
    Document::EcoString(collected(&out))
}

/// Whether a minus sign stands nowhere but at the start.
pub open spec fn minus_only_leads(value: Seq<char>) -> bool {
    forall|i: int| 0 < i < value.len() ==> value[i] != '-'
}

/// Each character of `digits_upto(s, n)` is a character of `s` at the same
/// index or a later one below `n`, and none is an underscore.
proof fn digits_come_from(s: Seq<char>, n: int)
    requires
        0 <= n <= s.len(),
    ensures
        digits_upto(s, n).len() <= n,
        forall|j: int|
            0 <= j < digits_upto(s, n).len() ==> (#[trigger] digits_upto(s, n)[j]) != '_'
                && exists|i: int| j <= i < n && s[i] == digits_upto(s, n)[j],
    decreases n,
{
    if n > 0 {
        digits_come_from(s, n - 1);
        let before = digits_upto(s, n - 1);
        let all = digits_upto(s, n);
        assert forall|j: int| 0 <= j < all.len() implies (#[trigger] all[j]) != '_' && exists|i: int|
            j <= i < n && s[i] == all[j] by {
            if j < before.len() {
                assert(all[j] == before[j]);
                let i = choose|i: int| j <= i < n - 1 && s[i] == before[j];
                assert(j <= i < n && s[i] == all[j]);
            } else {
                assert(j <= n - 1 < n && s[n - 1] == all[j]);
            }
        }
    }
}

/// `digits_upto` grows with `n`.
proof fn digits_grow(s: Seq<char>, m: int, n: int)
    requires
        0 <= m <= n <= s.len(),
    ensures
        digits_upto(s, m).len() <= digits_upto(s, n).len(),
        forall|j: int| 0 <= j < digits_upto(s, m).len() ==> digits_upto(s, n)[j] == digits_upto(s, m)[j],
    decreases n - m,
{
    if m < n {
        digits_grow(s, m, n - 1);
    }
}

/// `digits_upto` looks at the first `n` characters only.
proof fn digits_of_a_prefix(a: Seq<char>, b: Seq<char>, n: int)
    requires
        0 <= n <= a.len(),
        n <= b.len(),
        forall|i: int| 0 <= i < n ==> a[i] == b[i],
    ensures
        digits_upto(a, n) == digits_upto(b, n),
    decreases n,
{
    if n > 0 {
        digits_of_a_prefix(a, b, n - 1);
    }
}

/// Grouping puts nothing but underscores between the digits.
proof fn digits_of_grouped(d: Seq<char>, n: int)
    requires
        0 <= n <= d.len(),
        forall|j: int| 0 <= j < d.len() ==> d[j] != '_',
    ensures
        digits(grouped_upto(d, n)) == d.take(n),
        n > 0 ==> grouped_upto(d, n).len() > 0 && grouped_upto(d, n)[0] == d[0],
        n > 0 ==> (grouped_upto(d, n).last() == '_' <==> separated(d, n - 1)),
    decreases n,
{
    if n > 0 {
        digits_of_grouped(d, n - 1);
        let before = grouped_upto(d, n - 1);
        let with_digit = before.push(d[n - 1]);
        digits_of_a_prefix(with_digit, before, before.len() as int);
        assert(digits(with_digit) == d.take(n - 1).push(d[n - 1]));
        assert(d.take(n - 1).push(d[n - 1]) == d.take(n));
        if separated(d, n - 1) {
            let all = with_digit.push('_');
            digits_of_a_prefix(all, with_digit, with_digit.len() as int);
        }
    } else {
        assert(d.take(0) =~= Seq::<char>::empty());
    }
}

/// The canonical form of a decimal integer literal is its own canonical
/// form, for every literal that has a minus sign at its start or nowhere.
pub proof fn grouping_is_idempotent(value: Seq<char>)
    requires
        minus_only_leads(value),
    ensures
        underscored(underscored(value)) == underscored(value),
        int_text(int_text(value)) == int_text(value),
{
    let d = digits(value);
    let n = d.len() as int;
    digits_come_from(value, value.len() as int);
    minus_leads_the_digits(value);
    let out = underscored(value);
    if n >= watershed(value) {
        digits_of_grouped(d, n);
        assert(d.take(n) == d);
        assert(watershed(out) == watershed(value));
    } else {
        digits_of_a_prefix(d, d, n);
        assert(digits(d) == d) by {
            digits_are_fixed(d, n);
            assert(d.take(n) == d);
        }
        if n > 0 {
            assert(watershed(out) == watershed(value));
        }
    }
}

/// Whether the digits of `value` start with a minus sign exactly when
/// `value` does.
spec fn watershed_of_digits(value: Seq<char>) -> bool {
    (value.len() > 0 && value[0] == '-') <==> (digits(value).len() > 0 && digits(value)[0] == '-')
}

/// In the digits of a literal a minus can only stand first.
proof fn minus_leads_the_digits(value: Seq<char>)
    requires
        minus_only_leads(value),
    ensures
        watershed_of_digits(value),
{
    let d = digits(value);
    digits_come_from(value, value.len() as int);
    if value.len() > 0 && value[0] == '-' {
        assert(digits_upto(value, 0) =~= Seq::<char>::empty());
        assert(digits_upto(value, 1) =~= seq!['-']);
        digits_grow(value, 1, value.len() as int);
        assert(d[0] == digits_upto(value, 1)[0]);
    }
    if d.len() > 0 && d[0] == '-' {
        let i = choose|i: int| 0 <= i < value.len() && value[i] == d[0];
        assert(i == 0);
    }
}

/// A sequence without underscores is its own digits.
proof fn digits_are_fixed(d: Seq<char>, n: int)
    requires
        0 <= n <= d.len(),
        forall|j: int| 0 <= j < d.len() ==> d[j] != '_',
    ensures
        digits_upto(d, n) == d.take(n),
    decreases n,
{
    if n > 0 {
        digits_are_fixed(d, n - 1);
        assert(d.take(n - 1).push(d[n - 1]) == d.take(n));
    } else {
        assert(d.take(0) =~= Seq::<char>::empty());
    }
}

/// `first_index` finds the first `c`: no character before it is a `c`, and
/// if it lies within `s` the character there is one.
proof fn first_index_finds(s: Seq<char>, c: char)
    ensures
        0 <= first_index(s, c) <= s.len(),
        forall|i: int| 0 <= i < first_index(s, c) ==> s[i] != c,
        first_index(s, c) < s.len() ==> s[first_index(s, c)] == c,
    decreases s.len(),
{
    if !(s.len() == 0 || s[0] == c) {
        first_index_finds(s.drop_first(), c);
        assert forall|i: int| 0 <= i < first_index(s, c) implies s[i] != c by {
            if i > 0 {
                assert(s.drop_first()[i - 1] == s[i]);
            }
        }
    }
}

/// Where `before` holds no `c`, the first `c` of `before + after` is the
/// first `c` of `after`.
proof fn first_index_skips(before: Seq<char>, after: Seq<char>, c: char)
    requires
        forall|i: int| 0 <= i < before.len() ==> before[i] != c,
    ensures
        first_index(before + after, c) == before.len() + first_index(after, c),
    decreases before.len(),
{
    if before.len() == 0 {
        assert(before + after =~= after);
    } else {
        first_index_skips(before.drop_first(), after, c);
        assert((before + after).drop_first() =~= before.drop_first() + after);
    }
}

/// Trimming zeros leaves a prefix that does not end in a zero.
proof fn trimmed_is_a_prefix(s: Seq<char>)
    ensures
        trim_zeros(s).len() <= s.len(),
        trim_zeros(s) == s.take(trim_zeros(s).len() as int),
        trim_zeros(s).len() > 0 ==> trim_zeros(s).last() != '0',
        trim_zeros(trim_zeros(s)) == trim_zeros(s),
    decreases s.len(),
{
    if s.len() > 0 && s.last() == '0' {
        trimmed_is_a_prefix(s.drop_last());
        let n = trim_zeros(s).len() as int;
        assert(s.drop_last().take(n) =~= s.take(n));
    } else {
        assert(s.take(s.len() as int) =~= s);
    }
}

/// Grouping adds nothing but underscores.
proof fn grouped_comes_from(d: Seq<char>, n: int)
    requires
        0 <= n <= d.len(),
    ensures
        forall|j: int|
            0 <= j < grouped_upto(d, n).len() ==> (#[trigger] grouped_upto(d, n)[j])
                == '_' || exists|i: int| 0 <= i < n && d[i] == grouped_upto(d, n)[j],
    decreases n,
{
    if n > 0 {
        grouped_comes_from(d, n - 1);
        let before = grouped_upto(d, n - 1);
        let all = grouped_upto(d, n);
        assert forall|j: int| 0 <= j < all.len() implies (#[trigger] all[j]) == '_' || exists|
            i: int,
        | 0 <= i < n && d[i] == all[j] by {
            if j < before.len() {
                assert(all[j] == before[j]);
                if before[j] != '_' {
                    let i = choose|i: int| 0 <= i < n - 1 && d[i] == before[j];
                    assert(0 <= i < n && d[i] == all[j]);
                }
            } else if j == before.len() {
                assert(d[n - 1] == all[j]);
            }
        }
    }
}

/// The canonical form of an integer holds no character that the literal did
/// not hold, but for underscores.
proof fn underscored_comes_from(value: Seq<char>, c: char)
    requires
        c != '_',
        forall|i: int| 0 <= i < value.len() ==> value[i] != c,
    ensures
        forall|j: int| 0 <= j < underscored(value).len() ==> underscored(value)[j] != c,
{
    let d = digits(value);
    digits_come_from(value, value.len() as int);
    grouped_comes_from(d, d.len() as int);
    assert forall|j: int| 0 <= j < underscored(value).len() implies underscored(value)[j] != c by {
        let out = underscored(value);
        if d.len() >= watershed(value) {
            if out[j] != '_' {
                let k = choose|k: int| 0 <= k < d.len() && d[k] == out[j];
                let i = choose|i: int| k <= i < value.len() && value[i] == d[k];
            }
        } else {
            let i = choose|i: int| j <= i < value.len() && value[i] == d[j];
        }
    }
}

/// The canonical form of a float literal is its own canonical form, for
/// every literal whose part before the dot has a minus sign at its start or
/// nowhere.
pub proof fn float_form_is_idempotent(value: Seq<char>)
    requires
        minus_only_leads(float_whole(value)),
    ensures
        float_text(float_text(value)) == float_text(value),
{
    let whole = float_whole(value);
    let rest = float_rest(value);
    let f = float_fraction(value);
    let x = float_exponent(value);
    let u = underscored(whole);
    let out = float_text(value);

    first_index_finds(value, '.');
    let dot = first_index(value, '.');
    assert forall|i: int| 0 <= i < whole.len() implies whole[i] != '.' by {
        assert(whole[i] == value[i]);
    }
    underscored_comes_from(whole, '.');

    first_index_finds(rest, 'e');
    let e = first_index(rest, 'e');
    let digits_part = rest.take(e);
    trimmed_is_a_prefix(digits_part);
    let trimmed = trim_zeros(digits_part);
    assert forall|i: int| 0 <= i < f.len() implies f[i] != 'e' by {
        if trimmed.len() != 0 {
            assert(f[i] == digits_part[i]);
            assert(digits_part[i] == rest[i]);
        }
    }
    assert(x.len() > 0 ==> x[0] == 'e') by {
        if x.len() > 0 {
            assert(x[0] == rest[e]);
        }
    }

    // The canonical form splits at the same places.
    let tail = seq!['.'] + f + x;
    assert(out =~= u + tail);
    first_index_skips(u, tail, '.');
    assert(first_index(tail, '.') == 0);
    assert(first_index(out, '.') == u.len());
    assert(float_whole(out) =~= u);
    let after = out.skip(u.len() as int + 1);
    assert(after =~= f + x);
    assert(float_rest(out) =~= f + x);
    first_index_skips(f, x, 'e');
    assert(first_index(x, 'e') == 0);
    assert(first_index(f + x, 'e') == f.len());
    assert((f + x).take(f.len() as int) =~= f);
    assert((f + x).skip(f.len() as int) =~= x);
    assert(float_exponent(out) == x);
    assert(float_fraction(out) == f) by {
        if trimmed.len() == 0 {
            assert(f =~= seq!['0']);
            assert(f.drop_last() =~= Seq::<char>::empty());
            assert(trim_zeros(f.drop_last()) =~= Seq::<char>::empty());
            assert(trim_zeros(f) =~= Seq::<char>::empty());
        } else {
            assert(trim_zeros(f) == f);
        }
    }
    grouping_is_idempotent(whole);
}

/// The document of a number literal renders as its canonical text, whatever
/// the width.
pub proof fn a_literal_renders_as_its_text(value: Seq<char>, limit: int)
    ensures
        crate::pretty::render_text(int_doc(value), limit) == int_text(value),
        crate::pretty::render_text(float_doc(value), limit) == float_text(value),
{
    reveal_with_fuel(crate::pretty::layout, 5);
    assert("."@ =~= seq!['.']) by {
        reveal_strlit(".");
    }
    assert(crate::pretty::render_text(float_doc(value), limit) =~= float_text(value));
}

} // verus!
