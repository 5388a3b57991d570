//! Text as sequences of characters: the vocabulary in which the rest of the
//! library states what its strings hold, with an executable function for each
//! operation.
use vstd::prelude::*;
use vstd::string::*;
use vstd::utf8::*;

verus! {

broadcast use {vstd::seq_lib::group_seq_properties, vstd::string::group_string_axioms};

/// `String::push` appends the character at the end.
pub assume_specification[ String::push ](string: &mut String, c: char)
    ensures
        final(string)@ == old(string)@.push(c),
;

/// The characters with the Unicode property `White_Space`.
pub open spec fn is_space(c: char) -> bool {
    ||| '\u{9}' <= c <= '\u{d}'
    ||| c == ' '
    ||| c == '\u{85}'
    ||| c == '\u{a0}'
    ||| c == '\u{1680}'
    ||| '\u{2000}' <= c <= '\u{200a}'
    ||| c == '\u{2028}'
    ||| c == '\u{2029}'
    ||| c == '\u{202f}'
    ||| c == '\u{205f}'
    ||| c == '\u{3000}'
}

pub open spec fn is_digit(c: char) -> bool {
    '0' <= c <= '9'
}

pub open spec fn is_letter(c: char) -> bool {
    'a' <= c <= 'z' || 'A' <= c <= 'Z'
}

/// The lower case of an ASCII letter; any other character is left alone.
pub open spec fn lower_char(c: char) -> char {
    if 'A' <= c <= 'Z' {
        (c as u8 + 32) as char
    } else {
        c
    }
}

/// The text with its ASCII letters in lower case.
pub open spec fn lower(s: Seq<char>) -> Seq<char> {
    s.map_values(|c: char| lower_char(c))
}

/// The upper case of an ASCII letter; any other character is left alone.
pub open spec fn upper_char(c: char) -> char {
    if 'a' <= c <= 'z' {
        (c as u8 - 32) as char
    } else {
        c
    }
}

/// The text with its ASCII letters in upper case.
pub open spec fn upper(s: Seq<char>) -> Seq<char> {
    s.map_values(|c: char| upper_char(c))
}

/// The text without the white space at its start.
pub open spec fn trim_start(s: Seq<char>) -> Seq<char>
    decreases s.len(),
{
    if s.len() > 0 && is_space(s[0]) {
        trim_start(s.skip(1))
    } else {
        s
    }
}

/// The text without the white space at its end.
pub open spec fn trim_end(s: Seq<char>) -> Seq<char>
    decreases s.len(),
{
    if s.len() > 0 && is_space(s.last()) {
        trim_end(s.drop_last())
    } else {
        s
    }
}

/// The text without the white space at either end.
pub open spec fn trim(s: Seq<char>) -> Seq<char> {
    trim_end(trim_start(s))
}

/// The text without the run of `c` at its end.
pub open spec fn trim_end_of(s: Seq<char>, c: char) -> Seq<char>
    decreases s.len(),
{
    if s.len() > 0 && s.last() == c {
        trim_end_of(s.drop_last(), c)
    } else {
        s
    }
}

/// Whether `part` stands in `s` at position `i`.
pub open spec fn occurs_at(s: Seq<char>, part: Seq<char>, i: int) -> bool {
    0 <= i && i + part.len() <= s.len() && s.subrange(i, i + part.len()) == part
}

/// Whether `part` stands somewhere in `s`.
pub open spec fn contains(s: Seq<char>, part: Seq<char>) -> bool {
    exists|i: int| occurs_at(s, part, i)
}

/// The first position from `i` on at which `part` stands in `s`.
pub open spec fn find_from(s: Seq<char>, part: Seq<char>, i: int) -> Option<int>
    decreases s.len() + 1 - i,
{
    if i + part.len() > s.len() {
        None
    } else if occurs_at(s, part, i) {
        Some(i)
    } else {
        find_from(s, part, i + 1)
    }
}

/// The last position up to `i` at which `part` stands in `s`.
pub open spec fn rfind_upto(s: Seq<char>, part: Seq<char>, i: int) -> Option<int>
    decreases i + 1,
{
    if i < 0 {
        None
    } else if occurs_at(s, part, i) {
        Some(i)
    } else {
        rfind_upto(s, part, i - 1)
    }
}

/// The first position at which `part` stands in `s`.
pub open spec fn find(s: Seq<char>, part: Seq<char>) -> Option<int> {
    find_from(s, part, 0)
}

/// The last position at which `part` stands in `s`.
pub open spec fn rfind(s: Seq<char>, part: Seq<char>) -> Option<int> {
    rfind_upto(s, part, s.len() - part.len())
}

pub proof fn lemma_find_from(s: Seq<char>, part: Seq<char>, i: int)
    requires
        0 <= i,
    ensures
        match find_from(s, part, i) {
            Some(k) => i <= k && occurs_at(s, part, k) && (forall|j: int|
                i <= j < k ==> !occurs_at(s, part, j)),
            None => forall|j: int| i <= j ==> !occurs_at(s, part, j),
        },
    decreases s.len() + 1 - i,
{
    if i + part.len() > s.len() {
    } else if occurs_at(s, part, i) {
    } else {
        lemma_find_from(s, part, i + 1);
    }
}

/// From position `i` on, the text with each `part` replaced by `by`, the search
/// going on behind each replaced part.
pub open spec fn replace_from(s: Seq<char>, part: Seq<char>, by: Seq<char>, i: int) -> Seq<char>
    decreases s.len() - i,
{
    match find_from(s, part, i) {
        Some(k) => if i <= k && k + part.len() <= s.len() && part.len() > 0 {
            s.subrange(i, k) + by + replace_from(s, part, by, k + part.len())
        } else {
            s.skip(i)
        },
        None => s.skip(i),
    }
}

/// The text with each occurrence of `part`, taken from the left without overlap,
/// replaced by `by`.
pub open spec fn replace(s: Seq<char>, part: Seq<char>, by: Seq<char>) -> Seq<char> {
    replace_from(s, part, by, 0)
}

/// The first position from `i` on at which `c` stands in `s`, or the length of `s`.
pub open spec fn index_from(s: Seq<char>, c: char, i: int) -> int
    decreases s.len() - i,
{
    if i >= s.len() {
        s.len() as int
    } else if s[i] == c {
        i
    } else {
        index_from(s, c, i + 1)
    }
}

/// The pieces of the text from `i` on between one `c` and the next.
pub open spec fn split_from(s: Seq<char>, c: char, i: int) -> Seq<Seq<char>>
    decreases s.len() - i,
{
    let k = index_from(s, c, i);
    if i <= k < s.len() {
        seq![s.subrange(i, k)] + split_from(s, c, k + 1)
    } else {
        seq![s.subrange(i, s.len() as int)]
    }
}

/// The pieces of the text between one `c` and the next.
pub open spec fn split(s: Seq<char>, c: char) -> Seq<Seq<char>> {
    split_from(s, c, 0)
}

/// The text before the first `c`; all of it where there is none.
pub open spec fn before(s: Seq<char>, c: char) -> Seq<char> {
    s.take(index_from(s, c, 0))
}

/// The text behind the last `c`; all of it where there is none.
pub open spec fn after_last(s: Seq<char>, c: char) -> Seq<char>
    decreases s.len(),
{
    if s.len() == 0 || s.last() == c {
        seq![]
    } else {
        after_last(s.drop_last(), c).push(s.last())
    }
}

/// What the strings of a list hold.
pub open spec fn texts(list: Seq<String>) -> Seq<Seq<char>> {
    list.map_values(|text: String| text@)
}

/// The parts one behind the other, with `sep` between them.
pub open spec fn join(parts: Seq<Seq<char>>, sep: Seq<char>) -> Seq<char>
    decreases parts.len(),
{
    if parts.len() == 0 {
        seq![]
    } else if parts.len() == 1 {
        parts[0]
    } else {
        join(parts.drop_last(), sep) + sep + parts.last()
    }
}

/// What an optional string holds.
pub open spec fn opt_text(text: Option<String>) -> Option<Seq<char>> {
    match text {
        Some(text) => Some(text@),
        None => None,
    }
}

/// What an optional string slice holds.
pub open spec fn opt_str(text: Option<&str>) -> Option<Seq<char>> {
    match text {
        Some(text) => Some(text@),
        None => None,
    }
}

pub open spec fn digit_char(d: int) -> char {
    (48 + d) as char
}

/// A number in decimal digits.
pub open spec fn decimal(n: nat) -> Seq<char>
    decreases n,
{
    if n < 10 {
        seq![digit_char(n as int)]
    } else {
        decimal(n / 10).push(digit_char((n % 10) as int))
    }
}

/// The number that a row of decimal digits denotes.
pub open spec fn digits_value(s: Seq<char>) -> nat
    decreases s.len(),
{
    if s.len() == 0 {
        0
    } else {
        digits_value(s.drop_last()) * 10 + (s.last() as nat - 48) as nat
    }
}

pub open spec fn all_digits(s: Seq<char>) -> bool {
    forall|i: int| 0 <= i < s.len() ==> is_digit(#[trigger] s[i])
}

/// The unsigned number that a text denotes: an optional `+` and at least one decimal
/// digit, with a value of at most `max`.
pub open spec fn parse_unsigned(s: Seq<char>, max: nat) -> Option<nat> {
    let digits = if s.len() > 0 && s[0] == '+' {
        s.skip(1)
    } else {
        s
    };
    if digits.len() > 0 && all_digits(digits) && digits_value(digits) <= max {
        Some(digits_value(digits))
    } else {
        None
    }
}

/// The characters of a text.
pub fn chars_of(text: &str) -> (chars: Vec<char>)
    ensures
        chars@ == text@,
{
    let mut chars: Vec<char> = Vec::new();
    for c in it: text.chars()
        invariant
            it.seq() == text@,
            chars@ == text@.take(it.index() as int),
    {
        chars.push(c);
    }
    chars
}

/// The text made of the characters from `from` up to `to`.
pub fn text_between(chars: &[char], from: usize, to: usize) -> (text: String)
    requires
        from <= to <= chars@.len(),
    ensures
        text@ == chars@.subrange(from as int, to as int),
{
    let mut text = String::new();
    let mut i: usize = from;
    while i < to
        invariant
            from <= i <= to <= chars@.len(),
            text@ == chars@.subrange(from as int, i as int),
        decreases to - i,
    {
        text.push(chars[i]);
        i += 1;
    }
    text
}

/// Whether two texts are the same.
pub fn same(a: &str, b: &str) -> (r: bool)
    ensures
        r == (a@ == b@),
{
    let x = a.as_bytes();
    let y = b.as_bytes();
    proof {
        encode_utf8_decode_utf8(a@);
        encode_utf8_decode_utf8(b@);
    }
    if x.len() != y.len() {
        return false;
    }
    let mut i: usize = 0;
    while i < x.len()
        invariant
            x@.len() == y@.len(),
            i <= x@.len(),
            x@ == a.spec_bytes(),
            y@ == b.spec_bytes(),
            forall|k: int| 0 <= k < i ==> x@[k] == y@[k],
        decreases x@.len() - i,
    {
        if x[i] != y[i] {
            return false;
        }
        i += 1;
    }
    assert(x@ =~= y@);
    true
}

/// The two texts one behind the other.
pub fn concat(a: &str, b: &str) -> (text: String)
    ensures
        text@ == a@ + b@,
{
    let mut text = a.to_owned();
    text.append(b);
    text
}

pub fn space(c: char) -> (r: bool)
    ensures
        r == is_space(c),
{
    ('\u{9}' <= c && c <= '\u{d}') || c == ' ' || c == '\u{85}' || c == '\u{a0}' || c == '\u{1680}'
        || ('\u{2000}' <= c && c <= '\u{200a}') || c == '\u{2028}' || c == '\u{2029}' || c
        == '\u{202f}' || c == '\u{205f}' || c == '\u{3000}'
}

pub fn digit(c: char) -> (r: bool)
    ensures
        r == is_digit(c),
{
    '0' <= c && c <= '9'
}

pub fn letter(c: char) -> (r: bool)
    ensures
        r == is_letter(c),
{
    ('a' <= c && c <= 'z') || ('A' <= c && c <= 'Z')
}

/// The text with its ASCII letters in lower case.
pub fn ascii_lowercase(text: &str) -> (r: String)
    ensures
        r@ == lower(text@),
{
    let chars = chars_of(text);
    let mut r = String::new();
    let mut i: usize = 0;
    while i < chars.len()
        invariant
            chars@ == text@,
            i <= chars@.len(),
            r@ == lower(text@).take(i as int),
        decreases chars@.len() - i,
    {
        let c = chars[i];
        if 'A' <= c && c <= 'Z' {
            r.push((c as u8 + 32) as char);
        } else {
            r.push(c);
        }
        assert(lower(text@).take(i + 1) =~= lower(text@).take(i as int).push(lower(text@)[i as int]));
        i += 1;
    }
    assert(lower(text@).take(i as int) =~= lower(text@));
    r
}

/// Whether two texts are the same up to the case of their ASCII letters.
pub fn same_ignoring_case(a: &str, b: &str) -> (r: bool)
    ensures
        r == (lower(a@) == lower(b@)),
{
    same(ascii_lowercase(a).as_str(), ascii_lowercase(b).as_str())
}

proof fn lemma_trim_start_skip(s: Seq<char>, i: int)
    requires
        0 <= i <= s.len(),
        forall|k: int| 0 <= k < i ==> is_space(s[k]),
    ensures
        trim_start(s) == trim_start(s.skip(i)),
    decreases i,
{
    if i > 0 {
        assert(s.skip(1).skip(i - 1) =~= s.skip(i));
        lemma_trim_start_skip(s.skip(1), i - 1);
    } else {
        assert(s.skip(0) =~= s);
    }
}

proof fn lemma_trim_end_take(s: Seq<char>, j: int)
    requires
        0 <= j <= s.len(),
        forall|k: int| j <= k < s.len() ==> is_space(s[k]),
    ensures
        trim_end(s) == trim_end(s.take(j)),
    decreases s.len() - j,
{
    if j < s.len() {
        assert(s.drop_last().take(j) =~= s.take(j));
        lemma_trim_end_take(s.drop_last(), j);
    } else {
        assert(s.take(j) =~= s);
    }
}

/// The text without the white space at either end.
pub fn trimmed(text: &str) -> (r: String)
    ensures
        r@ == trim(text@),
{
    let chars = chars_of(text);
    let mut i: usize = 0;
    while i < chars.len() && space(chars[i])
        invariant
            i <= chars@.len(),
            forall|k: int| 0 <= k < i ==> is_space(chars@[k]),
        decreases chars@.len() - i,
    {
        i += 1;
    }
    let mut j: usize = chars.len();
    while i < j && space(chars[j - 1])
        invariant
            i <= j <= chars@.len(),
            forall|k: int| j <= k < chars@.len() ==> is_space(chars@[k]),
        decreases j,
    {
        j -= 1;
    }
    proof {
        let rest = chars@.skip(i as int);
        lemma_trim_start_skip(chars@, i as int);
        assert(trim_start(rest) == rest);
        lemma_trim_end_take(rest, j - i);
        assert(rest.take(j - i) =~= chars@.subrange(i as int, j as int));
    }
    text_between(&chars, i, j)
}

proof fn lemma_trim_start_part(s: Seq<char>)
    ensures
        trim_start(s).len() <= s.len(),
        trim_start(s) == s.skip(s.len() - trim_start(s).len()),
    decreases s.len(),
{
    if s.len() > 0 && is_space(s[0]) {
        lemma_trim_start_part(s.skip(1));
        let k = s.len() - trim_start(s).len();
        assert(s.skip(1).skip(k - 1) =~= s.skip(k));
    } else {
        assert(s.skip(0) =~= s);
    }
}

proof fn lemma_trim_end_part(s: Seq<char>)
    ensures
        trim_end(s).len() <= s.len(),
        trim_end(s) == s.take(trim_end(s).len() as int),
    decreases s.len(),
{
    if s.len() > 0 && is_space(s.last()) {
        lemma_trim_end_part(s.drop_last());
        assert(s.drop_last().take(trim_end(s).len() as int) =~= s.take(trim_end(s).len() as int));
    } else {
        assert(s.take(s.len() as int) =~= s);
    }
}

/// A trimmed text is a part of the text.
pub proof fn lemma_trim_part(s: Seq<char>)
    ensures
        ({
            let from = s.len() - trim_start(s).len();
            &&& 0 <= from
            &&& from + trim(s).len() <= s.len()
            &&& trim(s) == s.subrange(from, from + trim(s).len())
        }),
{
    lemma_trim_start_part(s);
    lemma_trim_end_part(trim_start(s));
    let from = s.len() - trim_start(s).len();
    assert(s.skip(from).take(trim(s).len() as int) =~= s.subrange(from, from + trim(s).len()));
}

proof fn lemma_trim_start_lower(s: Seq<char>)
    ensures
        trim_start(lower(s)) == lower(trim_start(s)),
    decreases s.len(),
{
    if s.len() > 0 {
        assert(lower(s).skip(1) =~= lower(s.skip(1)));
        lemma_trim_start_lower(s.skip(1));
    }
}

proof fn lemma_trim_end_lower(s: Seq<char>)
    ensures
        trim_end(lower(s)) == lower(trim_end(s)),
    decreases s.len(),
{
    if s.len() > 0 {
        assert(lower(s).drop_last() =~= lower(s.drop_last()));
        lemma_trim_end_lower(s.drop_last());
    }
}

/// It does not matter whether a text is trimmed or put into lower case first.
pub proof fn lemma_trim_lower(s: Seq<char>)
    ensures
        trim(lower(s)) == lower(trim(s)),
{
    lemma_trim_start_lower(s);
    lemma_trim_end_lower(trim_start(s));
}

/// Whether nothing but white space stands in the text.
pub fn blank(text: &str) -> (r: bool)
    ensures
        r == (trim(text@).len() == 0),
{
    trimmed(text).as_str().is_empty()
}

/// The text without the run of `c` at its end.
pub fn trimmed_end_of(text: &str, c: char) -> (r: String)
    ensures
        r@ == trim_end_of(text@, c),
{
    let chars = chars_of(text);
    let mut j: usize = chars.len();
    assert(chars@.take(j as int) =~= chars@);
    while 0 < j && chars[j - 1] == c
        invariant
            j <= chars@.len(),
            trim_end_of(chars@, c) == trim_end_of(chars@.take(j as int), c),
        decreases j,
    {
        j -= 1;
        assert(chars@.take(j + 1).drop_last() =~= chars@.take(j as int));
    }
    text_between(&chars, 0, j)
}

/// Whether `part` stands in `chars` at position `i`.
pub fn stands_at(chars: &[char], part: &[char], i: usize) -> (r: bool)
    requires
        i <= chars@.len(),
    ensures
        r == occurs_at(chars@, part@, i as int),
{
    let count: usize = chars.len();
    if part.len() > count - i {
        return false;
    }
    let mut k: usize = 0;
    while k < part.len()
        invariant
            count == chars@.len(),
            i + part@.len() <= count,
            k <= part@.len(),
            forall|j: int| 0 <= j < k ==> chars@[i + j] == part@[j],
        decreases part@.len() - k,
    {
        if chars[i + k] != part[k] {
            assert(chars@.subrange(i as int, i + part@.len())[k as int] != part@[k as int]);
            return false;
        }
        k += 1;
    }
    assert(chars@.subrange(i as int, i + part@.len()) =~= part@);
    true
}

/// The first position from `from` on at which `part` stands in `chars`.
pub fn position_from(chars: &[char], part: &[char], from: usize) -> (r: Option<usize>)
    requires
        from <= chars@.len(),
    ensures
        match r {
            Some(k) => find_from(chars@, part@, from as int) == Some(k as int) && from <= k && k
                + part@.len() <= chars@.len(),
            None => find_from(chars@, part@, from as int) is None,
        },
{
    let mut i: usize = from;
    while i < chars.len()
        invariant
            from <= i <= chars@.len(),
            find_from(chars@, part@, from as int) == find_from(chars@, part@, i as int),
        decreases chars@.len() - i,
    {
        if stands_at(chars, part, i) {
            return Some(i);
        }
        if part.len() > chars.len() - i {
            return None;
        }
        i += 1;
    }
    if stands_at(chars, part, i) {
        return Some(i);
    }
    assert(find_from(chars@, part@, i + 1) is None);
    None
}

/// The first position at which `part` stands in the text.
pub fn position(text: &str, part: &str) -> (r: Option<usize>)
    ensures
        match r {
            Some(k) => find(text@, part@) == Some(k as int) && k + part@.len() <= text@.len(),
            None => find(text@, part@) is None,
        },
{
    position_from(&chars_of(text), &chars_of(part), 0)
}

/// The last position at which `part` stands in the text.
pub fn last_position(text: &str, part: &str) -> (r: Option<usize>)
    ensures
        match r {
            Some(k) => rfind(text@, part@) == Some(k as int) && k + part@.len() <= text@.len(),
            None => rfind(text@, part@) is None,
        },
{
    let chars = chars_of(text);
    let wanted = chars_of(part);
    if wanted.len() > chars.len() {
        return None;
    }
    let mut i: usize = chars.len() - wanted.len();
    loop
        invariant
            chars@ == text@,
            wanted@ == part@,
            i + wanted@.len() <= chars@.len(),
            rfind(text@, part@) == rfind_upto(text@, part@, i as int),
        decreases i,
    {
        if stands_at(&chars, &wanted, i) {
            return Some(i);
        }
        if i == 0 {
            assert(rfind_upto(text@, part@, -1) is None);
            return None;
        }
        i -= 1;
    }
}

/// Whether `part` stands somewhere in the text.
pub fn has(text: &str, part: &str) -> (r: bool)
    ensures
        r == contains(text@, part@),
{
    proof {
        lemma_find_from(text@, part@, 0);
    }
    position(text, part).is_some()
}

/// Whether the text begins with `part`.
pub fn begins_with(text: &str, part: &str) -> (r: bool)
    ensures
        r == part@.is_prefix_of(text@),
{
    stands_at(&chars_of(text), &chars_of(part), 0)
}

/// Whether the text ends with `part`.
pub fn finishes_with(text: &str, part: &str) -> (r: bool)
    ensures
        r == part@.is_suffix_of(text@),
{
    let chars = chars_of(text);
    let wanted = chars_of(part);
    if wanted.len() > chars.len() {
        return false;
    }
    let at: usize = chars.len() - wanted.len();
    assert(at + wanted@.len() == chars@.len());
    stands_at(&chars, &wanted, at)
}

/// The first `count` characters of the text.
pub fn first_chars(text: &str, count: usize) -> (r: String)
    requires
        count <= text@.len(),
    ensures
        r@ == text@.take(count as int),
{
    text_between(&chars_of(text), 0, count)
}

/// The text with each occurrence of `part`, taken from the left without overlap,
/// replaced by `by`.
pub fn replaced(text: &str, part: &str, by: &str) -> (r: String)
    requires
        part@.len() > 0,
    ensures
        r@ == replace(text@, part@, by@),
{
    let chars = chars_of(text);
    let wanted = chars_of(part);
    let mut r = String::new();
    let mut at: usize = 0;
    let count: usize = chars.len();
    loop
        invariant
            count == chars@.len(),
            chars@ == text@,
            wanted@ == part@,
            part@.len() > 0,
            at <= chars@.len(),
            replace(text@, part@, by@) == r@ + replace_from(text@, part@, by@, at as int),
        decreases chars@.len() - at,
    {
        match position_from(&chars, &wanted, at) {
            Some(k) => {
                let ghost before = r@;
                r.append(text_between(&chars, at, k).as_str());
                r.append(by);
                proof {
                    let rest = replace_from(text@, part@, by@, k + part@.len());
                    assert(before + (text@.subrange(at as int, k as int) + by@ + rest) =~= r@
                        + rest);
                }
                at = k + wanted.len();
            },
            None => {
                r.append(text_between(&chars, at, chars.len()).as_str());
                assert(text@.subrange(at as int, text@.len() as int) =~= text@.skip(at as int));
                return r;
            },
        }
    }
}

proof fn lemma_index_from(s: Seq<char>, c: char, i: int)
    requires
        0 <= i <= s.len(),
    ensures
        i <= index_from(s, c, i) <= s.len(),
    decreases s.len() - i,
{
    if i < s.len() && s[i] != c {
        lemma_index_from(s, c, i + 1);
    }
}

/// The pieces of the text between one `c` and the next.
pub fn pieces(text: &str, c: char) -> (r: Vec<String>)
    ensures
        texts(r@) == split(text@, c),
{
    let chars = chars_of(text);
    let mut r: Vec<String> = Vec::new();
    let mut start: usize = 0;
    let mut i: usize = 0;
    assert(texts(r@) + split_from(text@, c, 0) =~= split_from(text@, c, 0));
    while i < chars.len()
        invariant
            chars@ == text@,
            start <= i <= chars@.len(),
            index_from(text@, c, start as int) == index_from(text@, c, i as int),
            split(text@, c) == texts(r@) + split_from(text@, c, start as int),
        decreases chars@.len() - i,
    {
        if chars[i] == c {
            let ghost before = texts(r@);
            let piece = text_between(&chars, start, i);
            r.push(piece);
            proof {
                assert(texts(r@) =~= before.push(piece@));
                let rest = split_from(text@, c, i + 1);
                assert(before + (seq![piece@] + rest) =~= texts(r@) + rest);
            }
            start = i + 1;
        }
        i += 1;
    }
    let ghost before = texts(r@);
    let piece = text_between(&chars, start, chars.len());
    r.push(piece);
    assert(texts(r@) =~= before + seq![piece@]);
    r
}

/// The text before the first `c`; all of it where there is none.
pub fn text_before(text: &str, c: char) -> (r: String)
    ensures
        r@ == before(text@, c),
{
    let chars = chars_of(text);
    let mut i: usize = 0;
    while i < chars.len() && chars[i] != c
        invariant
            chars@ == text@,
            i <= chars@.len(),
            index_from(text@, c, 0) == index_from(text@, c, i as int),
        decreases chars@.len() - i,
    {
        i += 1;
    }
    text_between(&chars, 0, i)
}

/// The text behind the last `c`; all of it where there is none.
pub fn text_after_last(text: &str, c: char) -> (r: String)
    ensures
        r@ == after_last(text@, c),
{
    let chars = chars_of(text);
    let mut i: usize = chars.len();
    assert(chars@.take(i as int) =~= chars@);
    assert(chars@.subrange(i as int, chars@.len() as int) =~= seq![]);
    while 0 < i && chars[i - 1] != c
        invariant
            chars@ == text@,
            i <= chars@.len(),
            after_last(text@, c) == after_last(text@.take(i as int), c) + text@.subrange(
                i as int,
                text@.len() as int,
            ),
        decreases i,
    {
        proof {
            let head = text@.take(i as int);
            assert(head.drop_last() =~= text@.take(i - 1));
            assert(after_last(head.drop_last(), c).push(head.last()) + text@.subrange(
                i as int,
                text@.len() as int,
            ) =~= after_last(text@.take(i - 1), c) + text@.subrange(i - 1, text@.len() as int));
        }
        i -= 1;
    }
    text_between(&chars, i, chars.len())
}

/// The strings one behind the other, with `sep` between them.
pub fn joined(list: &[String], sep: &str) -> (r: String)
    ensures
        r@ == join(texts(list@), sep@),
{
    let mut r = String::new();
    let mut i: usize = 0;
    while i < list.len()
        invariant
            i <= list@.len(),
            r@ == join(texts(list@).take(i as int), sep@),
        decreases list@.len() - i,
    {
        if i > 0 {
            r.append(sep);
        }
        r.append(list[i].as_str());
        assert(texts(list@).take(i + 1).drop_last() =~= texts(list@).take(i as int));
        i += 1;
    }
    assert(texts(list@).take(i as int) =~= texts(list@));
    r
}

/// A number in decimal digits.
pub fn decimal_text(n: u64) -> (r: String)
    ensures
        r@ == decimal(n as nat),
    decreases n,
{
    if n < 10 {
        let mut r = String::new();
        r.push((48 + n as u8) as char);
        assert(r@ =~= seq![digit_char(n as int)]);
        r
    } else {
        let mut r = decimal_text(n / 10);
        r.push((48 + (n % 10) as u8) as char);
        r
    }
}

proof fn lemma_digits_value_grows(s: Seq<char>, i: int)
    requires
        0 <= i <= s.len(),
        all_digits(s),
    ensures
        digits_value(s.take(i)) <= digits_value(s),
    decreases s.len() - i,
{
    if i < s.len() {
        assert(s.drop_last().take(i) =~= s.take(i));
        lemma_digits_value_grows(s.drop_last(), i);
    } else {
        assert(s.take(i) =~= s);
    }
}

/// The number that the digits from `start` on denote, where it is at most `max`.
fn digits_from(chars: &[char], start: usize, max: u64) -> (r: Option<u64>)
    requires
        start <= chars@.len(),
    ensures
        ({
            let digits = chars@.skip(start as int);
            match r {
                Some(n) => all_digits(digits) && digits_value(digits) == n && n <= max,
                None => !all_digits(digits) || digits_value(digits) > max,
            }
        }),
{
    let ghost digits = chars@.skip(start as int);
    let mut n: u64 = 0;
    let mut i: usize = start;
    assert(digits.take(0) =~= seq![]);
    while i < chars.len()
        invariant
            start <= i <= chars@.len(),
            digits == chars@.skip(start as int),
            all_digits(digits.take(i - start)),
            n == digits_value(digits.take(i - start)),
            n <= max,
        decreases chars@.len() - i,
    {
        let c = chars[i];
        let ghost k = i - start;
        assert(digits[k] == c);
        if !digit(c) {
            return None;
        }
        let d: u64 = (c as u8 - 48) as u64;
        proof {
            let head = digits.take(k + 1);
            assert(head.drop_last() =~= digits.take(k));
            assert(head.last() == c);
            assert(digits_value(head) == n * 10 + d);
            assert(all_digits(head)) by {
                assert forall|j: int| 0 <= j < head.len() implies is_digit(#[trigger] head[j]) by {
                    if j < k {
                        assert(head[j] == digits.take(k)[j]);
                    }
                }
            }
            if all_digits(digits) {
                lemma_digits_value_grows(digits, k + 1);
            }
        }
        if d > max || n > (max - d) / 10 {
            return None;
        }
        n = n * 10 + d;
        i += 1;
    }
    assert(digits.take(i - start) =~= digits);
    Some(n)
}

/// The unsigned number that a text denotes, where it is at most `max`.
pub fn parsed_unsigned(text: &str, max: u64) -> (r: Option<u64>)
    ensures
        match r {
            Some(n) => parse_unsigned(text@, max as nat) == Some(n as nat),
            None => parse_unsigned(text@, max as nat) is None,
        },
{
    let chars = chars_of(text);
    let start: usize = if chars.len() > 0 && chars[0] == '+' {
        1
    } else {
        0
    };
    assert(text@.skip(0) =~= text@);
    if chars.len() == start {
        return None;
    }
    digits_from(&chars, start, max)
}

/// A number in decimal digits denotes that number, and holds no other characters.
pub proof fn lemma_decimal(n: nat)
    ensures
        decimal(n).len() > 0,
        all_digits(decimal(n)),
        digits_value(decimal(n)) == n,
    decreases n,
{
    let s = decimal(n);
    if n < 10 {
        assert(s.drop_last() =~= seq![]);
        assert(digits_value(seq![]) == 0);
    } else {
        lemma_decimal(n / 10);
        assert(s.drop_last() =~= decimal(n / 10));
        assert forall|i: int| 0 <= i < s.len() implies is_digit(#[trigger] s[i]) by {
            if i < s.len() - 1 {
                assert(is_digit(decimal(n / 10)[i]));
            }
        }
    }
}

/// Reading a number back from its decimal digits gives the number.
pub proof fn law_decimal_is_read_back(n: nat, max: nat)
    requires
        n <= max,
    ensures
        parse_unsigned(trim(decimal(n)), max) == Some(n),
{
    lemma_decimal(n);
    let s = decimal(n);
    assert(is_digit(s[0]) && is_digit(s.last()));
    assert(trim_start(s) == s && trim_end(s) == s);
}

/// The bytes of a text in UTF-8.
pub open spec fn bytes_of(s: Seq<char>) -> Seq<u8> {
    vstd::utf8::encode_utf8(s)
}

/// Whether a character begins at a byte, or the text ends there.
pub open spec fn is_boundary(s: Seq<char>, at: int) -> bool {
    0 <= at <= bytes_of(s).len() && vstd::utf8::is_char_boundary(bytes_of(s), at)
}

/// The text up to a byte at which a character begins.
pub open spec fn before_byte(s: Seq<char>, at: int) -> Seq<char> {
    vstd::utf8::decode_utf8(bytes_of(s).subrange(0, at))
}

/// The text from a byte on at which a character begins.
pub open spec fn from_byte(s: Seq<char>, at: int) -> Seq<char> {
    vstd::utf8::decode_utf8(bytes_of(s).subrange(at, bytes_of(s).len() as int))
}

/// The text with a character put in at a byte.
pub open spec fn with_char_at(s: Seq<char>, at: int, c: char) -> Seq<char> {
    before_byte(s, at).push(c) + from_byte(s, at)
}

/// The text without the character that begins at a byte.
pub open spec fn without_char_at(s: Seq<char>, at: int) -> Seq<char> {
    before_byte(s, at) + from_byte(s, at).skip(1)
}

/// The text without its last character, if it has one.
pub open spec fn without_last(s: Seq<char>) -> Seq<char> {
    if s.len() == 0 {
        s
    } else {
        s.drop_last()
    }
}

/// The text up to a byte, and the text from there on.
fn split_at_byte(text: &str, at: usize) -> (r: (&str, &str))
    requires
        is_boundary(text@, at as int),
    ensures
        r.0@ == before_byte(text@, at as int),
        r.1@ == from_byte(text@, at as int),
        text@ == r.0@ + r.1@,
{
    broadcast use {
        vstd::utf8::encode_utf8_decode_utf8,
        vstd::utf8::encode_utf8_valid_utf8,
        vstd::utf8::decode_utf8_split,
    };

    let (head, tail) = text.split_at(at);
    assert(vstd::utf8::decode_utf8(bytes_of(head@)) == head@);
    assert(vstd::utf8::decode_utf8(bytes_of(tail@)) == tail@);
    assert(vstd::utf8::decode_utf8(bytes_of(text@)) == text@);
    (head, tail)
}

/// The text with a character put in at a byte.
pub fn inserted_at(text: &str, at: usize, c: char) -> (r: String)
    requires
        is_boundary(text@, at as int),
    ensures
        r@ == with_char_at(text@, at as int, c),
{
    let (head, tail) = split_at_byte(text, at);
    let mut r = head.to_owned();
    r.push(c);
    r.append(tail);
    r
}

/// The text without the character that begins at a byte.
pub fn removed_at(text: &str, at: usize) -> (r: String)
    requires
        is_boundary(text@, at as int),
        at < bytes_of(text@).len(),
    ensures
        r@ == without_char_at(text@, at as int),
{
    let (head, tail) = split_at_byte(text, at);
    proof {
        if tail@.len() == 0 {
            assert(text@ =~= head@);
            broadcast use vstd::utf8::encode_utf8_decode_utf8;
            broadcast use vstd::utf8::encode_utf8_valid_utf8;
            broadcast use vstd::utf8::valid_utf8_split;
            broadcast use vstd::utf8::decode_utf8_encode_utf8;

            let rest = bytes_of(text@).subrange(at as int, bytes_of(text@).len() as int);
            assert(vstd::utf8::valid_utf8(rest));
            assert(bytes_of(from_byte(text@, at as int)) == rest);
            assert(bytes_of(seq![]) =~= seq![]);
            assert(from_byte(text@, at as int) =~= seq![]);
        }
    }
    let mut r = head.to_owned();
    let chars = chars_of(tail);
    let rest = text_between(&chars, 1, chars.len());
    assert(rest@ =~= tail@.skip(1));
    r.append(rest.as_str());
    r
}

/// The text without its last character, if it has one.
pub fn popped(text: &str) -> (r: String)
    ensures
        r@ == without_last(text@),
{
    let chars = chars_of(text);
    if chars.len() == 0 {
        text.to_owned()
    } else {
        let r = text_between(&chars, 0, chars.len() - 1);
        assert(r@ =~= text@.drop_last());
        r
    }
}

/// Two or more parts are joined to the first part, the separator, and the rest joined.
pub proof fn law_join_from_the_front(parts: Seq<Seq<char>>, sep: Seq<char>)
    requires
        parts.len() > 1,
    ensures
        join(parts, sep) == parts[0] + sep + join(parts.skip(1), sep),
    decreases parts.len(),
{
    let rest = parts.skip(1);
    if parts.len() == 2 {
        reveal_with_fuel(join, 2);
        assert(join(parts, sep) =~= parts[0] + sep + parts[1]);
    } else {
        law_join_from_the_front(parts.drop_last(), sep);
        assert(parts.drop_last().skip(1) =~= rest.drop_last());
        assert(join(parts, sep) =~= parts[0] + sep + join(rest, sep));
    }
}

/// White space is what Unicode calls so: from U+0009 to U+000D, U+0020, U+0085, U+00A0,
/// U+1680, from U+2000 to U+200A, U+2028, U+2029, U+202F, U+205F and U+3000.
pub proof fn law_white_space(c: char)
    ensures
        is_space(c) <==> ({
            let code = c as u32;
            ||| 0x9 <= code <= 0xd
            ||| code == 0x20
            ||| code == 0x85
            ||| code == 0xa0
            ||| code == 0x1680
            ||| 0x2000 <= code <= 0x200a
            ||| code == 0x2028
            ||| code == 0x2029
            ||| code == 0x202f
            ||| code == 0x205f
            ||| code == 0x3000
        }),
{
}

/// Trimming takes away the white space around a text and nothing of the text.
pub proof fn law_trim(before: Seq<char>, body: Seq<char>, after: Seq<char>)
    requires
        forall|i: int| 0 <= i < before.len() ==> is_space(#[trigger] before[i]),
        forall|i: int| 0 <= i < after.len() ==> is_space(#[trigger] after[i]),
        body.len() > 0 ==> !is_space(body[0]) && !is_space(body.last()),
    ensures
        trim(before + body + after) == body,
{
    let s = before + body + after;
    let rest = body + after;
    assert forall|k: int| 0 <= k < before.len() implies is_space(s[k]) by {
        assert(s[k] == before[k]);
    }
    lemma_trim_start_skip(s, before.len() as int);
    assert(s.skip(before.len() as int) =~= rest);
    if body.len() > 0 {
        assert(rest[0] == body[0]);
        assert(trim_start(rest) == rest);
    } else {
        assert(rest =~= after);
        lemma_trim_start_skip(rest, rest.len() as int);
        assert(rest.skip(rest.len() as int) =~= seq![]);
        assert(trim_start(s) =~= seq![]);
        assert(trim(s) =~= seq![]);
        assert(body =~= seq![]);
    }
    if body.len() > 0 {
        assert forall|k: int| body.len() <= k < rest.len() implies is_space(rest[k]) by {
            assert(rest[k] == after[k - body.len()]);
        }
        lemma_trim_end_take(rest, body.len() as int);
        assert(rest.take(body.len() as int) =~= body);
    }
}

/// Lower case changes the letters from `A` to `Z`, each to the one 32 places on, and nothing
/// else.
pub proof fn law_lower(s: Seq<char>, i: int)
    requires
        0 <= i < s.len(),
    ensures
        lower(s).len() == s.len(),
        'A' <= s[i] <= 'Z' ==> lower(s)[i] as int == s[i] as int + 32,
        !('A' <= s[i] <= 'Z') ==> lower(s)[i] == s[i],
{
}

/// Taking a run of a character from the end takes all of the run and nothing before it.
pub proof fn law_trailing_run(s: Seq<char>, c: char, run: Seq<char>)
    requires
        s.len() > 0 ==> s.last() != c,
        forall|i: int| 0 <= i < run.len() ==> #[trigger] run[i] == c,
    ensures
        trim_end_of(s + run, c) == s,
    decreases run.len(),
{
    if run.len() == 0 {
        assert(s + run =~= s);
    } else {
        let less = run.drop_last();
        assert forall|i: int| 0 <= i < less.len() implies #[trigger] less[i] == c by {
            assert(less[i] == run[i]);
        }
        law_trailing_run(s, c, less);
        assert((s + run).last() == c) by {
            assert(run[run.len() - 1] == c);
        }
        assert((s + run).drop_last() =~= s + less);
    }
}

proof fn lemma_index_of_first(s: Seq<char>, c: char, i: int, k: int)
    requires
        0 <= i <= k <= s.len(),
        forall|j: int| i <= j < k ==> #[trigger] s[j] != c,
        k < s.len() ==> s[k] == c,
    ensures
        index_from(s, c, i) == k,
    decreases k - i,
{
    if i < k {
        assert(s[i] != c);
        lemma_index_of_first(s, c, i + 1, k);
    }
}

proof fn lemma_after_last(s: Seq<char>, c: char, tail: Seq<char>)
    requires
        s.len() == 0 || s.last() == c,
        !tail.contains(c),
    ensures
        after_last(s + tail, c) == tail,
    decreases tail.len(),
{
    if tail.len() == 0 {
        assert(s + tail =~= s);
        assert(after_last(s, c) =~= tail);
    } else {
        let less = tail.drop_last();
        assert(!less.contains(c)) by {
            if less.contains(c) {
                let i = choose|i: int| 0 <= i < less.len() && less[i] == c;
                assert(tail[i] == c);
            }
        }
        lemma_after_last(s, c, less);
        assert(tail[tail.len() - 1] != c);
        assert((s + tail).drop_last() =~= s + less);
        assert(after_last(s + tail, c) =~= tail);
    }
}

/// What stands before the first of a character is all up to it, and what stands behind the
/// last is all from there on; a text without the character counts whole for both.
pub proof fn law_before_and_behind(head: Seq<char>, c: char, tail: Seq<char>)
    ensures
        !head.contains(c) ==> before(head.push(c) + tail, c) == head && before(head, c) == head,
        !tail.contains(c) ==> after_last(head.push(c) + tail, c) == tail && after_last(tail, c)
            == tail,
{
    let s = head.push(c) + tail;
    if !head.contains(c) {
        assert forall|j: int| 0 <= j < head.len() implies #[trigger] s[j] != c by {
            assert(head[j] == s[j]);
        }
        lemma_index_of_first(s, c, 0, head.len() as int);
        assert(s.take(head.len() as int) =~= head);
        assert forall|j: int| 0 <= j < head.len() implies #[trigger] head[j] != c by {
            assert(head.contains(head[j]));
        }
        lemma_index_of_first(head, c, 0, head.len() as int);
        assert(head.take(head.len() as int) =~= head);
    }
    if !tail.contains(c) {
        lemma_after_last(head.push(c), c, tail);
        lemma_after_last(seq![], c, tail);
        assert(seq![] + tail =~= tail);
    }
}

proof fn lemma_rfind_upto(s: Seq<char>, part: Seq<char>, i: int)
    ensures
        match rfind_upto(s, part, i) {
            Some(k) => k <= i && occurs_at(s, part, k) && (forall|j: int|
                k < j <= i ==> !occurs_at(s, part, j)),
            None => forall|j: int| j <= i ==> !occurs_at(s, part, j),
        },
    decreases i + 1,
{
    if i >= 0 && !occurs_at(s, part, i) {
        lemma_rfind_upto(s, part, i - 1);
    }
}

/// The first and the last place at which a part stands in a text are places at which it
/// stands, with none before and none behind them; where it stands nowhere, there are none.
pub proof fn law_first_and_last_place(s: Seq<char>, part: Seq<char>, i: int)
    requires
        0 <= i,
        i + part.len() <= s.len(),
        s.subrange(i, i + part.len()) == part,
    ensures
        find(s, part) matches Some(k) && 0 <= k <= i && s.subrange(k, k + part.len()) == part,
        rfind(s, part) matches Some(k) && i <= k && k + part.len() <= s.len() && s.subrange(
            k,
            k + part.len(),
        ) == part,
        contains(s, part),
{
    assert(occurs_at(s, part, i));
    lemma_find_from(s, part, 0);
    lemma_rfind_upto(s, part, s.len() - part.len());
}

/// A part that a text is said to hold stands in it.
pub proof fn law_held_parts_stand_in_the_text(s: Seq<char>, part: Seq<char>)
    ensures
        contains(s, part) <==> exists|head: Seq<char>, tail: Seq<char>|
            #![trigger head + part + tail]
            s == head + part + tail,
        contains(s, part) <==> find(s, part) is Some,
        contains(s, part) <==> rfind(s, part) is Some,
{
    lemma_find_from(s, part, 0);
    lemma_rfind_upto(s, part, s.len() - part.len());
    if contains(s, part) {
        let i = choose|i: int| occurs_at(s, part, i);
        let head = s.take(i);
        let tail = s.skip(i + part.len());
        assert(s =~= head + part + tail);
    }
    if exists|head: Seq<char>, tail: Seq<char>|
        #![trigger head + part + tail]
        s == head + part + tail {
        let (head, tail) = choose|head: Seq<char>, tail: Seq<char>|
            #![trigger head + part + tail]
            s == head + part + tail;
        assert(s.subrange(head.len() as int, (head.len() + part.len()) as int) =~= part);
        assert(occurs_at(s, part, head.len() as int));
    }
}

/// A number of one digit is that digit; any other is its tens followed by its last digit.
pub proof fn law_decimal_digits(n: nat, d: nat)
    requires
        d < 10,
    ensures
        decimal(d) == seq!["0123456789"@[d as int]],
        n > 0 ==> decimal(n * 10 + d) == decimal(n).push("0123456789"@[d as int]),
{
    reveal_strlit("0123456789");
    assert("0123456789"@[d as int] as int == 48 + d);
    assert(digit_char(d as int) == "0123456789"@[d as int]);
    if n > 0 {
        let m = n * 10 + d;
        assert(m / 10 == n && m % 10 == d);
    }
}

/// A number is read back from its digits, with or without a plus before them, if it is not
/// too large, and nothing is read from a text with anything else in it or with nothing.
pub proof fn law_numbers_are_read(s: Seq<char>, n: nat, max: nat)
    ensures
        n <= max ==> parse_unsigned(decimal(n), max) == Some(n),
        n <= max ==> parse_unsigned("+"@ + decimal(n), max) == Some(n),
        n > max ==> parse_unsigned(decimal(n), max) is None,
        parse_unsigned(s, max) is Some ==> s.len() > 0 && forall|i: int|
            0 <= i < s.len() ==> '0' <= #[trigger] s[i] <= '9' || (i == 0 && s[i] == '+' && s.len()
                > 1),
{
    lemma_decimal(n);
    reveal_strlit("+");
    let digits = decimal(n);
    assert(is_digit(digits[0]));
    assert(("+"@ + digits).skip(1) =~= digits);
    if parse_unsigned(s, max) is Some {
        assert forall|i: int| 0 <= i < s.len() implies '0' <= #[trigger] s[i] <= '9' || (i == 0
            && s[i] == '+' && s.len() > 1) by {
            if s[0] == '+' {
                if i > 0 {
                    assert(is_digit(s.skip(1)[i - 1]));
                }
            } else {
                assert(is_digit(s[i]));
            }
        }
    }
}

pub(crate) proof fn lemma_find_skip(s: Seq<char>, part: Seq<char>, at: int, i: int)
    requires
        0 <= at <= s.len(),
        0 <= i,
    ensures
        find_from(s, part, at + i) == match find_from(s.skip(at), part, i) {
            Some(k) => Some(at + k),
            None => None::<int>,
        },
    decreases s.len() + 1 - i - at,
{
    let rest = s.skip(at);
    if i + part.len() <= rest.len() {
        assert(rest.subrange(i, i + part.len()) =~= s.subrange(at + i, at + i + part.len()));
        if !occurs_at(rest, part, i) {
            lemma_find_skip(s, part, at, i + 1);
        }
    }
}

proof fn lemma_replace_skip(s: Seq<char>, part: Seq<char>, by: Seq<char>, at: int, i: int)
    requires
        0 <= at <= s.len(),
        0 <= i,
        at + i <= s.len(),
    ensures
        replace_from(s, part, by, at + i) == replace_from(s.skip(at), part, by, i),
    decreases s.len() - i - at,
{
    let rest = s.skip(at);
    lemma_find_skip(s, part, at, i);
    lemma_find_from(rest, part, i);
    match find_from(rest, part, i) {
        Some(k) => {
            if part.len() > 0 {
                lemma_replace_skip(s, part, by, at, k + part.len());
                assert(rest.subrange(i, k) =~= s.subrange(at + i, at + k));
            } else {
                assert(rest.skip(i) =~= s.skip(at + i));
            }
        },
        None => {
            assert(rest.skip(i) =~= s.skip(at + i));
        },
    }
}

/// Replacing a part puts the other text where the part first stands, keeps what is before it,
/// and goes on behind it; a text without the part is left as it is.
pub proof fn law_replace(
    head: Seq<char>,
    part: Seq<char>,
    tail: Seq<char>,
    by: Seq<char>,
)
    requires
        part.len() > 0,
    ensures
        !contains(tail, part) ==> replace(tail, part, by) == tail,
        (forall|i: int| 0 <= i < head.len() ==> !occurs_at(head + part + tail, part, i)) ==> replace(
            head + part + tail,
            part,
            by,
        ) == head + by + replace(tail, part, by),
{
    lemma_find_from(tail, part, 0);
    if !contains(tail, part) {
        assert(find_from(tail, part, 0) is None);
        assert(tail.skip(0) =~= tail);
    }
    let s = head + part + tail;
    if forall|i: int| 0 <= i < head.len() ==> !occurs_at(s, part, i) {
        let at = head.len() as int;
        assert(s.subrange(at, at + part.len()) =~= part);
        assert(occurs_at(s, part, at));
        lemma_find_from(s, part, 0);
        assert(find_from(s, part, 0) == Some(at));
        assert(s.subrange(0, at) =~= head);
        assert(s.skip(at + part.len()) =~= tail);
        lemma_replace_skip(s, part, by, at + part.len(), 0);
        assert(replace(s, part, by) == head + by + replace(tail, part, by));
    }
}

proof fn lemma_index_skip(s: Seq<char>, c: char, at: int, i: int)
    requires
        0 <= at <= s.len(),
        0 <= i,
        at + i <= s.len(),
    ensures
        index_from(s, c, at + i) == at + index_from(s.skip(at), c, i),
    decreases s.len() - at - i,
{
    if at + i < s.len() && s[at + i] != c {
        lemma_index_skip(s, c, at, i + 1);
    }
}

proof fn lemma_split_skip(s: Seq<char>, c: char, at: int, i: int)
    requires
        0 <= at <= s.len(),
        0 <= i,
        at + i <= s.len(),
    ensures
        split_from(s, c, at + i) == split_from(s.skip(at), c, i),
    decreases s.len() - at - i,
{
    let rest = s.skip(at);
    lemma_index_skip(s, c, at, i);
    lemma_index_from(rest, c, i);
    let k = index_from(rest, c, i);
    assert(rest.subrange(i, k) =~= s.subrange(at + i, at + k));
    if k < rest.len() {
        lemma_split_skip(s, c, at, k + 1);
    } else {
        assert(rest.subrange(i, rest.len() as int) =~= s.subrange(at + i, s.len() as int));
    }
}

/// A text is split at the first of a character into what is before it and the pieces of what
/// is behind it; a text without the character is one piece.
pub proof fn law_split(head: Seq<char>, c: char, tail: Seq<char>)
    requires
        !head.contains(c),
    ensures
        split(head, c) == seq![head],
        split(head.push(c) + tail, c) == seq![head] + split(tail, c),
{
    assert forall|j: int| 0 <= j < head.len() implies #[trigger] head[j] != c by {
        assert(head.contains(head[j]));
    }
    lemma_index_of_first(head, c, 0, head.len() as int);
    assert(head.subrange(0, head.len() as int) =~= head);
    let s = head.push(c) + tail;
    assert forall|j: int| 0 <= j < head.len() implies #[trigger] s[j] != c by {
        assert(head[j] == s[j]);
    }
    lemma_index_of_first(s, c, 0, head.len() as int);
    assert(s.subrange(0, head.len() as int) =~= head);
    lemma_split_skip(s, c, head.len() as int + 1, 0);
    assert(s.skip(head.len() as int + 1) =~= tail);
}

} // verus!
