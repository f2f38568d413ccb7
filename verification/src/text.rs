//! Text handling: the string operations that the rest of the crate is stated over.
//!
//! Every operation has a spec function on `Seq<char>` and an executable twin that is proved to
//! compute it.
use vstd::prelude::*;

verus! {

/// `String::push` of std: the character is put behind the text.
pub assume_specification[ String::push ](s: &mut String, c: char)
    ensures
        final(s)@ == old(s)@.push(c),
;

/// `String::push_str` of std: the second text is put behind the first.
pub assume_specification[ String::push_str ](s: &mut String, t: &str)
    ensures
        final(s)@ == old(s)@ + t@,
;

/// The views of the items of a list.
pub open spec fn views<T: View>(items: Seq<T>) -> Seq<T::V> {
    Seq::new(items.len(), |i: int| items[i]@)
}

/// Pushing an item pushes its view.
pub proof fn lemma_views_push<T: View>(items: Seq<T>, x: T)
    ensures
        views(items.push(x)) == views(items).push(x@),
{
    assert(views(items.push(x)) =~= views(items).push(x@));
}

/// The text behind an optional string.
pub open spec fn opt_view(s: Option<String>) -> Option<Seq<char>> {
    match s {
        Some(t) => Some(t@),
        None => None,
    }
}

/// The text behind an optional string slice.
pub open spec fn opt_str(s: Option<&str>) -> Option<Seq<char>> {
    match s {
        Some(t) => Some(t@),
        None => None,
    }
}

// ---------------------------------------------------------------------------------------------
// Characters
// ---------------------------------------------------------------------------------------------

/// The Unicode `White_Space` property.
pub open spec fn is_whitespace(c: char) -> bool {
    ||| '\u{9}' <= c <= '\u{d}'
    ||| c == '\u{20}'
    ||| c == '\u{85}'
    ||| c == '\u{a0}'
    ||| c == '\u{1680}'
    ||| '\u{2000}' <= c <= '\u{200a}'
    ||| c == '\u{2028}'
    ||| c == '\u{2029}'
    ||| c == '\u{202f}'
    ||| c == '\u{205f}'
    ||| c == '\u{3000}'
}

/// Tests a character for the Unicode `White_Space` property.
pub fn char_is_whitespace(c: char) -> (r: bool)
    ensures
        r == is_whitespace(c),
{
    ('\u{9}' <= c && c <= '\u{d}') || c == '\u{20}' || c == '\u{85}' || c == '\u{a0}' || c
        == '\u{1680}' || ('\u{2000}' <= c && c <= '\u{200a}') || c == '\u{2028}' || c == '\u{2029}'
        || c == '\u{202f}' || c == '\u{205f}' || c == '\u{3000}'
}

/// Whether a character is a decimal digit.
pub open spec fn is_digit(c: char) -> bool {
    '0' <= c <= '9'
}

/// Whether a character is a lower-case letter of ASCII.
pub open spec fn is_lower(c: char) -> bool {
    'a' <= c <= 'z'
}

/// Whether a character is an upper-case letter of ASCII.
pub open spec fn is_upper(c: char) -> bool {
    'A' <= c <= 'Z'
}

/// ASCII letters and digits.
pub open spec fn is_alphanumeric(c: char) -> bool {
    is_digit(c) || is_lower(c) || is_upper(c)
}

/// Whether a character is a letter or digit of ASCII.
pub fn char_is_alphanumeric(c: char) -> (r: bool)
    ensures
        r == is_alphanumeric(c),
{
    ('0' <= c && c <= '9') || ('a' <= c && c <= 'z') || ('A' <= c && c <= 'Z')
}

/// The ASCII lower-case form of a character; what is not an ASCII capital stays.
pub open spec fn lower(c: char) -> char {
    if is_upper(c) {
        (c as int + 32) as char
    } else {
        c
    }
}

/// The lower-case form of a letter of ASCII.
pub fn char_to_lower(c: char) -> (r: char)
    ensures
        r == lower(c),
{
    if 'A' <= c && c <= 'Z' {
        let code: u8 = c as u8;
        (code + 32) as char
    } else {
        c
    }
}

// ---------------------------------------------------------------------------------------------
// Between strings and characters
// ---------------------------------------------------------------------------------------------

/// The characters of a text, in order.
pub fn chars_of(s: &str) -> (out: Vec<char>)
    ensures
        out@ == s@,
{
    let mut out: Vec<char> = Vec::new();
    for c in it: s.chars()
        invariant
            out@ == it.seq().take(it.index() as int),
            it.seq() == s@,
    {
        out.push(c);
    }
    out
}

/// The text that stands between two positions.
pub fn string_range(chars: &Vec<char>, from: usize, to: usize) -> (out: String)
    requires
        from <= to <= chars@.len(),
    ensures
        out@ == chars@.subrange(from as int, to as int),
{
    let mut out = String::new();
    let mut i: usize = from;
    while i < to
        invariant
            from <= i <= to <= chars@.len(),
            out@ == chars@.subrange(from as int, i as int),
        decreases to - i,
    {
        out.push(chars[i]);
        i += 1;
        assert(chars@.subrange(from as int, i as int) =~= chars@.subrange(
            from as int,
            i - 1,
        ).push(chars@[i - 1]));
    }
    out
}

/// Tests two texts for equality.
pub fn text_eq(a: &str, b: &str) -> (r: bool)
    ensures
        r == (a@ == b@),
{
    let x = chars_of(a);
    let y = chars_of(b);
    if x.len() != y.len() {
        return false;
    }
    let mut i: usize = 0;
    while i < x.len()
        invariant
            i <= x@.len(),
            x@ == a@,
            y@ == b@,
            x@.len() == y@.len(),
            forall|j: int| 0 <= j < i ==> x@[j] == y@[j],
        decreases x@.len() - i,
    {
        if x[i] != y[i] {
            assert(x@[i as int] != y@[i as int]);
            return false;
        }
        i += 1;
    }
    assert(x@ =~= y@);
    true
}

/// An owned copy of an optional text.
pub fn opt_to_owned(s: Option<&str>) -> (out: Option<String>)
    ensures
        opt_view(out) == opt_str(s),
{
    match s {
        Some(t) => Some(t.to_owned()),
        None => None,
    }
}

/// A copy of an optional string.
pub fn opt_clone(s: &Option<String>) -> (out: Option<String>)
    ensures
        opt_view(out) == opt_view(*s),
{
    match s {
        Some(t) => Some(t.clone()),
        None => None,
    }
}

/// A copy of a list of strings.
pub fn clone_all(texts: &Vec<String>) -> (out: Vec<String>)
    ensures
        views(out@) == views(texts@),
{
    let mut out: Vec<String> = Vec::new();
    let mut i: usize = 0;
    while i < texts.len()
        invariant
            i <= texts@.len(),
            views(out@) == views(texts@).take(i as int),
        decreases texts@.len() - i,
    {
        let ghost before = out@;
        let copy = texts[i].clone();
        out.push(copy);
        proof {
            lemma_views_push(before, copy);
        }
        i += 1;
        assert(views(texts@).take(i as int) =~= views(texts@).take(i - 1).push(texts@[i - 1]@));
    }
    assert(views(texts@).take(i as int) =~= views(texts@));
    out
}

/// Whether a text stands in a list.
pub fn list_contains(texts: &Vec<String>, text: &str) -> (r: bool)
    ensures
        r == views(texts@).contains(text@),
{
    let mut i: usize = 0;
    while i < texts.len()
        invariant
            i <= texts@.len(),
            forall|j: int| 0 <= j < i ==> views(texts@)[j] != text@,
        decreases texts@.len() - i,
    {
        assert(views(texts@)[i as int] == texts@[i as int]@);
        if text_eq(texts[i].as_str(), text) {
            assert(views(texts@)[i as int] == text@);
            return true;
        }
        i += 1;
    }
    false
}

/// Two texts, one behind the other.
pub fn concat(a: &str, b: &str) -> (out: String)
    ensures
        out@ == a@ + b@,
{
    let mut out = a.to_owned();
    out.push_str(b);
    out
}

/// Three texts, one behind the other.
pub fn concat3(a: &str, b: &str, c: &str) -> (out: String)
    ensures
        out@ == a@ + b@ + c@,
{
    let mut out = a.to_owned();
    out.push_str(b);
    out.push_str(c);
    out
}

// ---------------------------------------------------------------------------------------------
// Searching
// ---------------------------------------------------------------------------------------------

/// The position of the first `c`, or the length where there is none.
pub open spec fn first_of(s: Seq<char>, c: char) -> nat
    decreases s.len(),
{
    if s.len() == 0 {
        0
    } else if s[0] == c {
        0
    } else {
        1 + first_of(s.skip(1), c)
    }
}

/// `first_of` is the first position that holds the character.
pub proof fn lemma_first_of(s: Seq<char>, c: char, i: nat)
    requires
        i <= s.len(),
        forall|j: int| 0 <= j < i ==> s[j] != c,
        i < s.len() ==> s[i as int] == c,
    ensures
        first_of(s, c) == i,
    decreases s.len(),
{
    if s.len() > 0 && i > 0 {
        assert(s[0] != c);
        assert forall|j: int| 0 <= j < i - 1 implies s.skip(1)[j] != c by {
            assert(s.skip(1)[j] == s[j + 1]);
        }
        lemma_first_of(s.skip(1), c, (i - 1) as nat);
    }
}

/// The position that `first_of` gives holds the character, where it is one of the text, and none
/// before it does; where the character is not in the text, it is the length.
pub proof fn first_of_is_first(s: Seq<char>, c: char)
    ensures
        first_of(s, c) <= s.len(),
        first_of(s, c) < s.len() <==> s.contains(c),
        first_of(s, c) < s.len() ==> s[first_of(s, c) as int] == c,
        forall|j: int| 0 <= j < first_of(s, c) ==> #[trigger] s[j] != c,
    decreases s.len(),
{
    if s.len() > 0 && s[0] != c {
        let rest = s.skip(1);
        first_of_is_first(rest, c);
        assert forall|j: int| 0 <= j < first_of(s, c) implies #[trigger] s[j] != c by {
            if j > 0 {
                assert(rest[j - 1] == s[j]);
            }
        }
        if s.contains(c) {
            let j = choose|j: int| 0 <= j < s.len() && s[j] == c;
            assert(rest[j - 1] == c);
        }
    }
}

/// A text that is cut at a character is what stands before it, the character, and what stands
/// behind it, and what stands before it does not hold the character. A text is cut exactly where it
/// holds the character.
pub proof fn cut_texts_join_again(s: Seq<char>, c: char)
    ensures
        split_once(s, c) is Some <==> s.contains(c),
        split_once(s, c) matches Some((a, b)) ==> a.push(c) + b == s && !a.contains(c),
{
    first_of_is_first(s, c);
    if let Some((a, b)) = split_once(s, c) {
        assert(a.push(c) + b =~= s);
        if a.contains(c) {
            let j = choose|j: int| 0 <= j < a.len() && a[j] == c;
            assert(s[j] == c);
        }
    }
}

/// The first position at or behind `from` that holds `c`, or the length.
pub fn find_char(chars: &Vec<char>, from: usize, c: char) -> (at: usize)
    requires
        from <= chars@.len(),
    ensures
        from <= at <= chars@.len(),
        at - from == first_of(chars@.skip(from as int), c),
        at < chars@.len() ==> chars@[at as int] == c,
        forall|j: int| from <= j < at ==> chars@[j] != c,
{
    let mut at: usize = from;
    while at < chars.len() && chars[at] != c
        invariant
            from <= at <= chars@.len(),
            forall|j: int| from <= j < at ==> chars@[j] != c,
        decreases chars@.len() - at,
    {
        at += 1;
    }
    proof {
        let rest = chars@.skip(from as int);
        assert forall|j: int| 0 <= j < at - from implies rest[j] != c by {
            assert(rest[j] == chars@[from + j]);
        }
        lemma_first_of(rest, c, (at - from) as nat);
    }
    at
}

/// Whether `p` is a prefix of `s`.
pub open spec fn starts_with(s: Seq<char>, p: Seq<char>) -> bool {
    p.len() <= s.len() && s.take(p.len() as int) == p
}

/// Whether `p` stands in `chars` at a position.
pub fn matches_at(chars: &Vec<char>, at: usize, p: &Vec<char>) -> (r: bool)
    requires
        at <= chars@.len(),
    ensures
        r == starts_with(chars@.skip(at as int), p@),
{
    let ghost rest = chars@.skip(at as int);
    if p.len() > chars.len() - at {
        return false;
    }
    let mut i: usize = 0;
    while i < p.len()
        invariant
            at <= chars@.len(),
            rest == chars@.skip(at as int),
            p@.len() <= rest.len(),
            rest.len() == chars@.len() - at,
            chars@.len() <= usize::MAX,
            i <= p@.len(),
            forall|j: int| 0 <= j < i ==> rest[j] == p@[j],
        decreases p@.len() - i,
    {
        if chars[at + i] != p[i] {
            assert(rest.take(p@.len() as int)[i as int] == rest[i as int]);
            assert(rest[i as int] != p@[i as int]);
            return false;
        }
        i += 1;
    }
    assert(rest.take(p@.len() as int) =~= p@);
    true
}

/// Tests for a prefix.
pub fn text_starts_with(s: &str, p: &str) -> (r: bool)
    ensures
        r == starts_with(s@, p@),
{
    let chars = chars_of(s);
    let prefix = chars_of(p);
    assert(chars@.skip(0) =~= s@);
    matches_at(&chars, 0, &prefix)
}

/// The text behind a prefix, where the prefix is there.
pub open spec fn strip_prefix(s: Seq<char>, p: Seq<char>) -> Option<Seq<char>> {
    if starts_with(s, p) {
        Some(s.skip(p.len() as int))
    } else {
        None
    }
}

/// Takes a prefix off.
pub fn text_strip_prefix(s: &str, p: &str) -> (r: Option<String>)
    ensures
        opt_view(r) == strip_prefix(s@, p@),
{
    let chars = chars_of(s);
    let prefix = chars_of(p);
    assert(chars@.skip(0) =~= s@);
    if matches_at(&chars, 0, &prefix) {
        Some(string_range(&chars, prefix.len(), chars.len()))
    } else {
        None
    }
}

/// The texts before and behind the first `c`, where there is one.
pub open spec fn split_once(s: Seq<char>, c: char) -> Option<(Seq<char>, Seq<char>)> {
    let i = first_of(s, c) as int;
    if i < s.len() {
        Some((s.take(i), s.skip(i + 1)))
    } else {
        None
    }
}

/// Cuts a text at the first occurrence of a character.
pub fn text_split_once(s: &str, c: char) -> (r: Option<(String, String)>)
    ensures
        match r {
            Some((a, b)) => split_once(s@, c) == Some((a@, b@)),
            None => split_once(s@, c) is None,
        },
{
    let chars = chars_of(s);
    assert(chars@.skip(0) =~= s@);
    let at = find_char(&chars, 0, c);
    if at < chars.len() {
        Some((string_range(&chars, 0, at), string_range(&chars, at + 1, chars.len())))
    } else {
        None
    }
}

// ---------------------------------------------------------------------------------------------
// Trimming
// ---------------------------------------------------------------------------------------------

/// The text without the white space that it begins with.
pub open spec fn trim_start(s: Seq<char>) -> Seq<char>
    decreases s.len(),
{
    if s.len() > 0 && is_whitespace(s[0]) {
        trim_start(s.skip(1))
    } else {
        s
    }
}

/// The text without the white space that it ends with.
pub open spec fn trim_end(s: Seq<char>) -> Seq<char>
    decreases s.len(),
{
    if s.len() > 0 && is_whitespace(s.last()) {
        trim_end(s.drop_last())
    } else {
        s
    }
}

/// The text without white space at its two ends.
pub open spec fn trim(s: Seq<char>) -> Seq<char> {
    trim_end(trim_start(s))
}

/// Takes white space off both ends.
pub fn text_trim(s: &str) -> (out: String)
    ensures
        out@ == trim(s@),
{
    let chars = chars_of(s);
    let mut from: usize = 0;
    assert(chars@.skip(0) =~= chars@);
    while from < chars.len() && char_is_whitespace(chars[from])
        invariant
            from <= chars@.len(),
            trim_start(chars@.skip(from as int)) == trim_start(chars@),
        decreases chars@.len() - from,
    {
        assert(chars@.skip(from as int).skip(1) =~= chars@.skip(from + 1));
        assert(chars@.skip(from as int)[0] == chars@[from as int]);
        from += 1;
    }
    assert(from < chars@.len() ==> chars@.skip(from as int)[0] == chars@[from as int]);
    let mut to: usize = chars.len();
    assert(chars@.subrange(from as int, to as int) =~= chars@.skip(from as int));
    while from < to && char_is_whitespace(chars[to - 1])
        invariant
            from <= to <= chars@.len(),
            trim_end(chars@.subrange(from as int, to as int)) == trim(chars@),
        decreases to,
    {
        assert(chars@.subrange(from as int, to as int).drop_last() =~= chars@.subrange(
            from as int,
            to - 1,
        ));
        assert(chars@.subrange(from as int, to as int).last() == chars@[to - 1]);
        to -= 1;
    }
    assert(from < to ==> chars@.subrange(from as int, to as int).last() == chars@[to - 1]);
    string_range(&chars, from, to)
}

/// The text without any `c` at its beginning.
pub open spec fn trim_start_char(s: Seq<char>, c: char) -> Seq<char>
    decreases s.len(),
{
    if s.len() > 0 && s[0] == c {
        trim_start_char(s.skip(1), c)
    } else {
        s
    }
}

/// The text without any `c` at its end.
pub open spec fn trim_end_char(s: Seq<char>, c: char) -> Seq<char>
    decreases s.len(),
{
    if s.len() > 0 && s.last() == c {
        trim_end_char(s.drop_last(), c)
    } else {
        s
    }
}

/// Takes every `c` off the end.
pub fn text_trim_end_char(s: &str, c: char) -> (out: String)
    ensures
        out@ == trim_end_char(s@, c),
{
    let chars = chars_of(s);
    let mut to: usize = chars.len();
    assert(chars@.take(to as int) =~= chars@);
    while 0 < to && chars[to - 1] == c
        invariant
            to <= chars@.len(),
            trim_end_char(chars@.take(to as int), c) == trim_end_char(chars@, c),
        decreases to,
    {
        assert(chars@.take(to as int).drop_last() =~= chars@.take(to - 1));
        assert(chars@.take(to as int).last() == chars@[to - 1]);
        to -= 1;
    }
    assert(0 < to ==> chars@.take(to as int).last() == chars@[to - 1]);
    string_range(&chars, 0, to)
}

/// Takes every `c` off both ends.
pub fn text_trim_char(s: &str, c: char) -> (out: String)
    ensures
        out@ == trim_end_char(trim_start_char(s@, c), c),
{
    let chars = chars_of(s);
    let mut from: usize = 0;
    assert(chars@.skip(0) =~= chars@);
    while from < chars.len() && chars[from] == c
        invariant
            from <= chars@.len(),
            trim_start_char(chars@.skip(from as int), c) == trim_start_char(chars@, c),
        decreases chars@.len() - from,
    {
        assert(chars@.skip(from as int).skip(1) =~= chars@.skip(from + 1));
        assert(chars@.skip(from as int)[0] == chars@[from as int]);
        from += 1;
    }
    assert(from < chars@.len() ==> chars@.skip(from as int)[0] == chars@[from as int]);
    let rest = string_range(&chars, from, chars.len());
    assert(rest@ =~= chars@.skip(from as int));
    text_trim_end_char(rest.as_str(), c)
}

// ---------------------------------------------------------------------------------------------
// Splitting
// ---------------------------------------------------------------------------------------------

/// The pieces between the occurrences of a character; always one more than there are of them.
pub open spec fn split(s: Seq<char>, c: char) -> Seq<Seq<char>>
    decreases s.len(),
{
    let i = first_of(s, c) as int;
    if i < s.len() {
        seq![s.take(i)] + split(s.skip(i + 1), c)
    } else {
        seq![s]
    }
}

/// Splits at every occurrence of a character.
pub fn text_split(s: &str, c: char) -> (out: Vec<String>)
    ensures
        views(out@) == split(s@, c),
{
    let chars = chars_of(s);
    let mut out: Vec<String> = Vec::new();
    let mut start: usize = 0;
    assert(chars@.skip(0) =~= s@);
    assert(views(out@) + split(chars@.skip(0), c) =~= split(s@, c));
    loop
        invariant
            start <= chars@.len(),
            views(out@) + split(chars@.skip(start as int), c) == split(s@, c),
        decreases chars@.len() - start,
    {
        let ghost rest = chars@.skip(start as int);
        let ghost before = out@;
        let end = find_char(&chars, start, c);
        let piece = string_range(&chars, start, end);
        out.push(piece);
        proof {
            lemma_views_push(before, piece);
            assert(rest.take(end - start) =~= piece@);
        }
        if end == chars.len() {
            assert(rest.take(end - start) =~= rest);
            assert(views(out@) =~= views(before) + seq![rest]);
            return out;
        }
        assert(rest.skip(end - start + 1) =~= chars@.skip(end + 1));
        assert(views(out@) + split(chars@.skip(end + 1), c) =~= views(before) + (seq![piece@]
            + split(chars@.skip(end + 1), c)));
        start = end + 1;
    }
}

/// A line without the carriage return that belongs to its line ending.
pub open spec fn without_cr(s: Seq<char>) -> Seq<char> {
    if s.len() > 0 && s.last() == '\r' {
        s.drop_last()
    } else {
        s
    }
}

/// The lines of a text. A line ends in a line feed, with or without a carriage return before it;
/// the last line may lack its ending, and an empty last line is none.
pub open spec fn lines(s: Seq<char>) -> Seq<Seq<char>>
    decreases s.len(),
{
    let i = first_of(s, '\n') as int;
    if s.len() == 0 {
        seq![]
    } else if i < s.len() {
        seq![without_cr(s.take(i))] + lines(s.skip(i + 1))
    } else {
        seq![s]
    }
}

/// Splits a text into its lines.
pub fn text_lines(s: &str) -> (out: Vec<String>)
    ensures
        views(out@) == lines(s@),
{
    let chars = chars_of(s);
    let mut out: Vec<String> = Vec::new();
    let mut start: usize = 0;
    assert(chars@.skip(0) =~= s@);
    assert(views(out@) + lines(chars@.skip(0)) =~= lines(s@));
    while start < chars.len()
        invariant
            start <= chars@.len(),
            views(out@) + lines(chars@.skip(start as int)) == lines(s@),
        decreases chars@.len() - start,
    {
        let ghost rest = chars@.skip(start as int);
        let ghost before = out@;
        let end = find_char(&chars, start, '\n');
        if end == chars.len() {
            let piece = string_range(&chars, start, end);
            out.push(piece);
            proof {
                lemma_views_push(before, piece);
                assert(piece@ =~= rest);
                assert(chars@.skip(end as int) =~= Seq::empty());
                assert(views(out@) + lines(chars@.skip(end as int)) =~= views(before) + seq![rest]);
            }
            start = end;
        } else {
            let stop = if end > start && chars[end - 1] == '\r' {
                end - 1
            } else {
                end
            };
            let piece = string_range(&chars, start, stop);
            out.push(piece);
            proof {
                lemma_views_push(before, piece);
                let line = rest.take(end - start);
                if line.len() > 0 {
                    assert(line.last() == chars@[end - 1]);
                }
                assert(piece@ =~= without_cr(line));
                assert(rest.skip(end - start + 1) =~= chars@.skip(end + 1));
                assert(views(out@) + lines(chars@.skip(end + 1)) =~= views(before) + (seq![piece@]
                    + lines(chars@.skip(end + 1))));
            }
            start = end + 1;
        }
    }
    assert(chars@.skip(start as int) =~= Seq::empty());
    assert(views(out@) + lines(chars@.skip(start as int)) =~= views(out@));
    out
}

/// The length of the text up to its first white space.
pub open spec fn word_len(s: Seq<char>) -> nat
    decreases s.len(),
{
    if s.len() == 0 || is_whitespace(s[0]) {
        0
    } else {
        1 + word_len(s.skip(1))
    }
}

/// A word is no longer than its text.
pub proof fn lemma_word_len(s: Seq<char>)
    ensures
        word_len(s) <= s.len(),
    decreases s.len(),
{
    if s.len() > 0 && !is_whitespace(s[0]) {
        lemma_word_len(s.skip(1));
    }
}

/// The words of a text: its longest pieces without white space.
pub open spec fn words(s: Seq<char>) -> Seq<Seq<char>>
    decreases s.len(),
{
    let t = trim_start(s);
    if t.len() == 0 || t.len() > s.len() || word_len(t) == 0 || word_len(t) > t.len() {
        seq![]
    } else {
        seq![t.take(word_len(t) as int)] + words(t.skip(word_len(t) as int))
    }
}

/// Splits a text at its white space.
pub fn text_words(s: &str) -> (out: Vec<String>)
    ensures
        views(out@) == words(s@),
{
    let chars = chars_of(s);
    let mut out: Vec<String> = Vec::new();
    let mut start: usize = 0;
    assert(chars@.skip(0) =~= s@);
    assert(views(out@) + words(chars@.skip(0)) =~= words(s@));
    loop
        invariant
            start <= chars@.len(),
            views(out@) + words(chars@.skip(start as int)) == words(s@),
        decreases chars@.len() - start,
    {
        let ghost rest = chars@.skip(start as int);
        let ghost before = out@;
        let mut from: usize = start;
        while from < chars.len() && char_is_whitespace(chars[from])
            invariant
                start <= from <= chars@.len(),
                trim_start(chars@.skip(from as int)) == trim_start(rest),
            decreases chars@.len() - from,
        {
            assert(chars@.skip(from as int).skip(1) =~= chars@.skip(from + 1));
            assert(chars@.skip(from as int)[0] == chars@[from as int]);
            from += 1;
        }
        let ghost t = chars@.skip(from as int);
        proof {
            if from < chars@.len() {
                assert(t[0] == chars@[from as int]);
            }
            assert(trim_start(rest) == t);
        }
        if from == chars.len() {
            assert(views(out@) + Seq::<Seq<char>>::empty() =~= views(out@));
            return out;
        }
        let mut to: usize = from;
        while to < chars.len() && !char_is_whitespace(chars[to])
            invariant
                from <= to <= chars@.len(),
                t == chars@.skip(from as int),
                word_len(t) == (to - from) + word_len(chars@.skip(to as int)),
            decreases chars@.len() - to,
        {
            assert(chars@.skip(to as int).skip(1) =~= chars@.skip(to + 1));
            assert(chars@.skip(to as int)[0] == chars@[to as int]);
            to += 1;
        }
        proof {
            if to < chars@.len() {
                assert(chars@.skip(to as int)[0] == chars@[to as int]);
            }
            assert(word_len(chars@.skip(to as int)) == 0);
            lemma_word_len(t);
        }
        let piece = string_range(&chars, from, to);
        out.push(piece);
        proof {
            lemma_views_push(before, piece);
            assert(piece@ =~= t.take(to - from));
            assert(t.skip(to - from) =~= chars@.skip(to as int));
            assert(views(out@) + words(chars@.skip(to as int)) =~= views(before) + (seq![piece@]
                + words(chars@.skip(to as int))));
        }
        start = to;
    }
}

// ---------------------------------------------------------------------------------------------
// Rewriting
// ---------------------------------------------------------------------------------------------

/// The text with every occurrence of `from` replaced, left to right and without overlap.
pub open spec fn replace_all(s: Seq<char>, from: Seq<char>, to: Seq<char>) -> Seq<char>
    decreases s.len(),
{
    if from.len() == 0 || s.len() < from.len() {
        s
    } else if starts_with(s, from) {
        to + replace_all(s.skip(from.len() as int), from, to)
    } else {
        seq![s[0]] + replace_all(s.skip(1), from, to)
    }
}

/// Replaces every occurrence of a non-empty text.
pub fn text_replace(s: &str, from: &str, to: &str) -> (out: String)
    requires
        from@.len() > 0,
    ensures
        out@ == replace_all(s@, from@, to@),
{
    let chars = chars_of(s);
    let pattern = chars_of(from);
    let mut out = String::new();
    let mut at: usize = 0;
    assert(chars@.skip(0) =~= s@);
    assert(out@ + replace_all(chars@.skip(0), from@, to@) =~= replace_all(s@, from@, to@));
    while at < chars.len()
        invariant
            at <= chars@.len(),
            pattern@ == from@,
            from@.len() > 0,
            out@ + replace_all(chars@.skip(at as int), from@, to@) == replace_all(s@, from@, to@),
        decreases chars@.len() - at,
    {
        let ghost rest = chars@.skip(at as int);
        let ghost before = out@;
        if matches_at(&chars, at, &pattern) {
            out.push_str(to);
            assert(rest.skip(from@.len() as int) =~= chars@.skip(at + from@.len()));
            assert(out@ + replace_all(chars@.skip(at + from@.len()), from@, to@) =~= before + (to@
                + replace_all(chars@.skip(at + from@.len()), from@, to@)));
            at += pattern.len();
        } else {
            out.push(chars[at]);
            proof {
                assert(rest[0] == chars@[at as int]);
                assert(rest.skip(1) =~= chars@.skip(at + 1));
                if rest.len() < from@.len() {
                    lemma_replace_short(rest.skip(1), from@, to@);
                    assert(rest =~= seq![rest[0]] + rest.skip(1));
                }
                assert(out@ + replace_all(chars@.skip(at + 1), from@, to@) =~= before + (
                seq![rest[0]] + replace_all(chars@.skip(at + 1), from@, to@)));
            }
            at += 1;
        }
    }
    assert(chars@.skip(at as int) =~= Seq::empty());
    assert(out@ + replace_all(chars@.skip(at as int), from@, to@) =~= out@);
    out
}

proof fn lemma_replace_short(s: Seq<char>, from: Seq<char>, to: Seq<char>)
    requires
        s.len() < from.len(),
    ensures
        replace_all(s, from, to) == s,
{
}

/// The pieces of a text between the occurrences of `p`, found left to right and without overlap.
pub open spec fn pieces(s: Seq<char>, p: Seq<char>) -> Seq<Seq<char>>
    decreases s.len(),
{
    if p.len() == 0 || s.len() < p.len() {
        seq![s]
    } else if starts_with(s, p) {
        seq![Seq::empty()] + pieces(s.skip(p.len() as int), p)
    } else {
        let rest = pieces(s.skip(1), p);
        seq![seq![s[0]] + rest[0]] + rest.skip(1)
    }
}

/// There is always a piece.
pub proof fn lemma_pieces_not_empty(s: Seq<char>, p: Seq<char>)
    ensures
        pieces(s, p).len() > 0,
    decreases s.len(),
{
    if p.len() > 0 && s.len() >= p.len() {
        if starts_with(s, p) {
            lemma_pieces_not_empty(s.skip(p.len() as int), p);
        } else {
            lemma_pieces_not_empty(s.skip(1), p);
        }
    }
}

/// The first part stands first.
pub proof fn lemma_join_first(parts: Seq<Seq<char>>, sep: Seq<char>)
    requires
        parts.len() > 1,
    ensures
        join(parts, sep) == parts[0] + sep + join(parts.skip(1), sep),
    decreases parts.len(),
{
    let rest = parts.skip(1);
    if parts.len() == 2 {
        assert(parts.drop_last()[0] == parts[0]);
        assert(join(parts.drop_last(), sep) == parts[0]);
        assert(rest[0] == parts.last());
    } else {
        lemma_join_first(parts.drop_last(), sep);
        assert(parts.drop_last().skip(1) =~= rest.drop_last());
        assert(rest.last() == parts.last());
        assert(join(parts, sep) =~= parts[0] + sep + join(rest, sep));
    }
}

/// What stands before the first part stands before the whole.
pub proof fn lemma_join_prefix(parts: Seq<Seq<char>>, sep: Seq<char>, before: Seq<char>)
    requires
        parts.len() > 0,
    ensures
        join(parts.update(0, before + parts[0]), sep) == before + join(parts, sep),
{
    let more = parts.update(0, before + parts[0]);
    if parts.len() > 1 {
        lemma_join_first(parts, sep);
        lemma_join_first(more, sep);
        assert(more.skip(1) =~= parts.skip(1));
        assert(before + parts[0] + sep + join(parts.skip(1), sep) =~= before + (parts[0] + sep
            + join(parts.skip(1), sep)));
    }
}

/// What is left of the pieces when text is taken from the first.
pub proof fn lemma_pieces_skip(s: Seq<char>, p: Seq<char>, n: int)
    requires
        p.len() > 0,
        0 <= n <= pieces(s, p)[0].len(),
    ensures
        n <= s.len(),
        pieces(s.skip(n), p) == pieces(s, p).update(0, pieces(s, p)[0].skip(n)),
    decreases n,
{
    let all = pieces(s, p);
    lemma_pieces_not_empty(s, p);
    if n == 0 {
        assert(s.skip(0) =~= s);
        assert(all[0].skip(0) =~= all[0]);
        assert(all.update(0, all[0]) =~= all);
    } else if s.len() < p.len() {
        assert(all =~= seq![s]);
        assert(pieces(s.skip(n), p) =~= all.update(0, s.skip(n)));
    } else {
        let rest = pieces(s.skip(1), p);
        lemma_pieces_not_empty(s.skip(1), p);
        assert(!starts_with(s, p));
        assert(all[0] == seq![s[0]] + rest[0]);
        lemma_pieces_skip(s.skip(1), p, n - 1);
        assert(s.skip(1).skip(n - 1) =~= s.skip(n));
        assert(all[0].skip(n) =~= rest[0].skip(n - 1));
        assert(all.update(0, all[0].skip(n)) =~= rest.update(0, rest[0].skip(n - 1)));
    }
}

/// Replacing a text joins the pieces between its occurrences with the replacement.
pub proof fn replacing_joins_the_pieces(s: Seq<char>, p: Seq<char>, t: Seq<char>)
    requires
        p.len() > 0,
    ensures
        replace_all(s, p, t) == join(pieces(s, p), t),
    decreases s.len(),
{
    if s.len() >= p.len() {
        if starts_with(s, p) {
            let rest = s.skip(p.len() as int);
            replacing_joins_the_pieces(rest, p, t);
            lemma_pieces_not_empty(rest, p);
            lemma_join_first(pieces(s, p), t);
            assert(pieces(s, p).skip(1) =~= pieces(rest, p));
            assert(pieces(s, p)[0] + t =~= t);
        } else {
            let rest = pieces(s.skip(1), p);
            replacing_joins_the_pieces(s.skip(1), p, t);
            lemma_pieces_not_empty(s.skip(1), p);
            let all = pieces(s, p);
            assert(all[0] == seq![s[0]] + rest[0]);
            if rest.len() == 1 {
                assert(all.len() == 1);
            } else {
                lemma_join_first(rest, t);
                lemma_join_first(all, t);
                assert(all.skip(1) =~= rest.skip(1));
                assert(all[0] + t + join(rest.skip(1), t) =~= seq![s[0]] + (rest[0] + t + join(
                    rest.skip(1),
                    t,
                )));
            }
        }
    }
}

/// Replacing a text by itself changes nothing.
pub proof fn lemma_replace_by_itself(s: Seq<char>, p: Seq<char>)
    ensures
        replace_all(s, p, p) == s,
    decreases s.len(),
{
    if p.len() > 0 && s.len() >= p.len() {
        if starts_with(s, p) {
            lemma_replace_by_itself(s.skip(p.len() as int), p);
            assert(s =~= p + s.skip(p.len() as int));
        } else {
            lemma_replace_by_itself(s.skip(1), p);
            assert(s =~= seq![s[0]] + s.skip(1));
        }
    }
}

/// No piece between the occurrences of a text holds another occurrence.
pub proof fn pieces_hold_no_match(s: Seq<char>, p: Seq<char>)
    requires
        p.len() > 0,
    ensures
        forall|i: int, at: int|
            0 <= i < pieces(s, p).len() && 0 <= at <= pieces(s, p)[i].len() ==> !starts_with(
                #[trigger] pieces(s, p)[i].skip(at),
                p,
            ),
        starts_with(s, pieces(s, p)[0]),
    decreases s.len(),
{
    let all = pieces(s, p);
    if s.len() < p.len() {
        assert(s.take(s.len() as int) =~= s);
    } else if starts_with(s, p) {
        let rest = s.skip(p.len() as int);
        pieces_hold_no_match(rest, p);
        assert(s.take(0) =~= Seq::empty());
        assert forall|i: int, at: int|
            0 <= i < all.len() && 0 <= at <= all[i].len() implies !starts_with(
            #[trigger] all[i].skip(at),
            p,
        ) by {
            if i > 0 {
                assert(all[i] == pieces(rest, p)[i - 1]);
                assert(!starts_with(pieces(rest, p)[i - 1].skip(at), p));
            }
        }
    } else {
        let rest = pieces(s.skip(1), p);
        pieces_hold_no_match(s.skip(1), p);
        lemma_pieces_not_empty(s.skip(1), p);
        let first = all[0];
        assert(first == seq![s[0]] + rest[0]);
        assert(s.take(first.len() as int) =~= first) by {
            assert(s.skip(1).take(rest[0].len() as int) == rest[0]);
            assert forall|k: int| 0 <= k < first.len() implies s[k] == first[k] by {
                if k > 0 {
                    assert(s.skip(1).take(rest[0].len() as int)[k - 1] == s[k]);
                }
            }
        }
        assert forall|i: int, at: int|
            0 <= i < all.len() && 0 <= at <= all[i].len() implies !starts_with(
            #[trigger] all[i].skip(at),
            p,
        ) by {
            if i > 0 {
                assert(all[i] == rest[i]);
                assert(!starts_with(rest[i].skip(at), p));
            } else if at > 0 {
                assert(first.skip(at) =~= rest[0].skip(at - 1));
                assert(!starts_with(rest[0].skip(at - 1), p));
            } else {
                assert(first.skip(0) =~= first);
                if starts_with(first, p) {
                    assert(s.take(p.len() as int) =~= first.take(p.len() as int));
                    assert(starts_with(s, p));
                }
            }
        }
    }
}

/// The text with its ASCII capitals in lower case.
pub open spec fn lower_all(s: Seq<char>) -> Seq<char> {
    Seq::new(s.len(), |i: int| lower(s[i]))
}

/// Puts ASCII capitals in lower case.
pub fn text_lower(s: &str) -> (out: String)
    ensures
        out@ == lower_all(s@),
{
    let chars = chars_of(s);
    let mut out = String::new();
    let mut i: usize = 0;
    while i < chars.len()
        invariant
            i <= chars@.len(),
            chars@ == s@,
            out@ == lower_all(s@).take(i as int),
        decreases chars@.len() - i,
    {
        out.push(char_to_lower(chars[i]));
        i += 1;
        assert(lower_all(s@).take(i as int) =~= lower_all(s@).take(i - 1).push(lower(s@[i - 1])));
    }
    assert(lower_all(s@).take(i as int) =~= lower_all(s@));
    out
}

/// The parts with a separator between each two.
pub open spec fn join(parts: Seq<Seq<char>>, sep: Seq<char>) -> Seq<char>
    decreases parts.len(),
{
    if parts.len() == 0 {
        seq![]
    } else if parts.len() == 1 {
        parts[0]
    } else {
        join(parts.drop_last(), sep) + sep + parts.last()
    }
}

/// Joins texts with a separator.
pub fn text_join(parts: &Vec<String>, sep: &str) -> (out: String)
    ensures
        out@ == join(views(parts@), sep@),
{
    let mut out = String::new();
    let mut i: usize = 0;
    assert(out@ =~= join(views(parts@).take(0), sep@));
    while i < parts.len()
        invariant
            i <= parts@.len(),
            out@ == join(views(parts@).take(i as int), sep@),
        decreases parts@.len() - i,
    {
        if i > 0 {
            out.push_str(sep);
        }
        out.push_str(parts[i].as_str());
        i += 1;
        proof {
            let now = views(parts@).take(i as int);
            assert(now.drop_last() =~= views(parts@).take(i - 1));
            assert(now.last() == parts@[i - 1]@);
            if i == 1 {
                assert(out@ =~= parts@[0]@);
            }
        }
    }
    assert(views(parts@).take(i as int) =~= views(parts@));
    out
}

/// What `str::to_lowercase` of std makes of a text.
pub uninterp spec fn lowercased(s: Seq<char>) -> Seq<char>;

/// `str::to_lowercase` of std: the Unicode lower-case form. ASCII letters go to their lower-case
/// form, and other ASCII characters stay.
#[verifier::external_body]
pub(crate) fn std_to_lowercase(s: &str) -> (r: String)
    ensures
        r@ == lowercased(s@),
        vstd::utf8::is_ascii_chars(s@) ==> r@ == lower_all(s@),
{
    s.to_lowercase()
}

/// What `String::from_utf8_lossy` of std makes of bytes.
pub uninterp spec fn utf8_lossy(bytes: Seq<u8>) -> Seq<char>;

/// `String::from_utf8_lossy` of std: the text that valid UTF-8 encodes. Which replacement
/// characters stand for invalid bytes is left to std.
#[verifier::external_body]
pub(crate) fn std_from_utf8_lossy(bytes: &[u8]) -> (r: String)
    ensures
        r@ == utf8_lossy(bytes@),
        vstd::utf8::valid_utf8(bytes@) ==> r@ == vstd::utf8::decode_utf8(bytes@),
{
    String::from_utf8_lossy(bytes).into_owned()
}

// ---------------------------------------------------------------------------------------------
// Numbers
// ---------------------------------------------------------------------------------------------

/// The character of a digit.
pub open spec fn digit_char(d: nat) -> char {
    (48 + d) as char
}

/// A number written in a base of at most ten, without leading zeros.
pub open spec fn digits(n: nat, base: nat) -> Seq<char>
    decreases n,
{
    if n < base || base < 2 {
        seq![digit_char(n)]
    } else {
        proof {
            assert(n / base < n) by (nonlinear_arith)
                requires
                    n >= base,
                    base >= 2,
            ;
        }
        digits(n / base, base).push(digit_char(n % base))
    }
}

/// A number in decimal.
pub open spec fn decimal(n: nat) -> Seq<char> {
    digits(n, 10)
}

fn push_digits(out: &mut String, n: u64, base: u64)
    requires
        2 <= base <= 10,
    ensures
        final(out)@ == old(out)@ + digits(n as nat, base as nat),
    decreases n,
{
    if n < base {
        let d: u8 = n as u8;
        out.push((48u8 + d) as char);
        assert(out@ =~= old(out)@ + digits(n as nat, base as nat));
    } else {
        let high: u64 = n / base;
        assert(high < n) by (nonlinear_arith)
            requires
                high == n / base,
                n >= base,
                base >= 2,
        ;
        push_digits(out, high, base);
        let low: u64 = n % base;
        let d: u8 = low as u8;
        out.push((48u8 + d) as char);
        assert(out@ =~= old(out)@ + digits(n as nat, base as nat));
    }
}

/// Writes a number in decimal.
pub fn text_decimal(n: u64) -> (out: String)
    ensures
        out@ == decimal(n as nat),
{
    let mut out = String::new();
    push_digits(&mut out, n, 10);
    assert(out@ =~= decimal(n as nat));
    out
}

/// Writes a number in octal.
pub fn text_octal(n: u64) -> (out: String)
    ensures
        out@ == digits(n as nat, 8),
{
    let mut out = String::new();
    push_digits(&mut out, n, 8);
    assert(out@ =~= digits(n as nat, 8));
    out
}

/// Whether every character is a decimal digit.
pub open spec fn all_digits(s: Seq<char>) -> bool {
    forall|i: int| 0 <= i < s.len() ==> is_digit(#[trigger] s[i])
}

/// The number that decimal digits write.
pub open spec fn value(s: Seq<char>) -> nat
    decreases s.len(),
{
    if s.len() == 0 {
        0
    } else {
        (value(s.drop_last()) * 10 + (s.last() as int - 48)) as nat
    }
}

/// The number that a text of one or more decimal digits writes.
pub open spec fn number(s: Seq<char>) -> Option<nat> {
    if s.len() > 0 && all_digits(s) {
        Some(value(s))
    } else {
        None
    }
}

/// A number in decimal is made of digits, and they write the number.
pub proof fn decimal_writes_the_number(n: nat)
    ensures
        all_digits(decimal(n)),
        value(decimal(n)) == n,
        decimal(n).len() > 0,
    decreases n,
{
    if n >= 10 {
        decimal_writes_the_number(n / 10);
        assert(decimal(n).drop_last() =~= decimal(n / 10));
    } else {
        assert(decimal(n).drop_last() =~= Seq::empty());
        assert(value(Seq::empty()) == 0);
    }
    assert(value(decimal(n)) == value(decimal(n).drop_last()) * 10 + n % 10);
}

proof fn lemma_value_grows(s: Seq<char>, i: int)
    requires
        0 <= i <= s.len(),
        all_digits(s),
    ensures
        value(s.take(i)) <= value(s),
    decreases s.len() - i,
{
    if i < s.len() {
        let next = s.take(i + 1);
        assert(next.drop_last() =~= s.take(i));
        assert(is_digit(s[i]));
        assert(next.last() == s[i]);
        assert(value(next) >= value(s.take(i)));
        lemma_value_grows(s, i + 1);
    } else {
        assert(s.take(i) =~= s);
    }
}

/// Reads decimal digits from a position on; `None` too where the number exceeds 64 bits.
fn read_number(chars: &Vec<char>, from: usize) -> (r: Option<u64>)
    requires
        from <= chars@.len(),
    ensures
        match number(chars@.skip(from as int)) {
            Some(n) => if n <= u64::MAX {
                r == Some(n as u64)
            } else {
                r is None
            },
            None => r is None,
        },
{
    let ghost rest = chars@.skip(from as int);
    if from == chars.len() {
        return None;
    }
    let mut total: u64 = 0;
    let mut i: usize = from;
    assert(rest.take(0) =~= Seq::empty());
    while i < chars.len()
        invariant
            from <= i <= chars@.len(),
            rest == chars@.skip(from as int),
            rest.len() > 0,
            total == value(rest.take(i - from)),
            forall|j: int| 0 <= j < i - from ==> is_digit(#[trigger] rest[j]),
        decreases chars@.len() - i,
    {
        let c = chars[i];
        assert(rest[i - from] == c);
        if !('0' <= c && c <= '9') {
            assert(!is_digit(rest[i - from]));
            return None;
        }
        let code: u8 = c as u8;
        let d: u64 = (code - 48) as u64;
        let ghost next = rest.take(i - from + 1);
        proof {
            assert(next.drop_last() =~= rest.take(i - from));
            assert(next.last() == c);
            assert(value(next) == total * 10 + d);
        }
        let wide: u128 = total as u128 * 10 + d as u128;
        if wide > u64::MAX as u128 {
            proof {
                if all_digits(rest) {
                    lemma_value_grows(rest, i - from + 1);
                }
            }
            return None;
        }
        total = wide as u64;
        i += 1;
    }
    assert(rest.take(i - from) =~= rest);
    Some(total)
}

/// Reads a `u64`: decimal digits behind an optional plus sign.
pub open spec fn parse_u64(s: Seq<char>) -> Option<u64> {
    let rest = if s.len() > 0 && s[0] == '+' {
        s.skip(1)
    } else {
        s
    };
    match number(rest) {
        Some(n) => if n <= u64::MAX {
            Some(n as u64)
        } else {
            None
        },
        None => None,
    }
}

/// Reads a `u64`.
pub fn text_parse_u64(s: &str) -> (r: Option<u64>)
    ensures
        r == parse_u64(s@),
{
    let chars = chars_of(s);
    assert(chars@.skip(0) =~= s@);
    if chars.len() > 0 && chars[0] == '+' {
        read_number(&chars, 1)
    } else {
        read_number(&chars, 0)
    }
}

/// Reads an `i64`: decimal digits behind an optional sign.
pub open spec fn parse_i64(s: Seq<char>) -> Option<i64> {
    let signed = s.len() > 0 && (s[0] == '+' || s[0] == '-');
    let rest = if signed {
        s.skip(1)
    } else {
        s
    };
    match number(rest) {
        Some(n) => {
            let v = if signed && s[0] == '-' {
                -(n as int)
            } else {
                n as int
            };
            if i64::MIN <= v <= i64::MAX {
                Some(v as i64)
            } else {
                None
            }
        },
        None => None,
    }
}

/// Reads an `i64`.
pub fn text_parse_i64(s: &str) -> (r: Option<i64>)
    ensures
        r == parse_i64(s@),
{
    let chars = chars_of(s);
    assert(chars@.skip(0) =~= s@);
    let signed = chars.len() > 0 && (chars[0] == '+' || chars[0] == '-');
    let from: usize = if signed {
        1
    } else {
        0
    };
    match read_number(&chars, from) {
        Some(n) => {
            let wide: i128 = if signed && chars[0] == '-' {
                -(n as i128)
            } else {
                n as i128
            };
            if i64::MIN as i128 <= wide && wide <= i64::MAX as i128 {
                Some(wide as i64)
            } else {
                None
            }
        },
        None => None,
    }
}

// ---------------------------------------------------------------------------------------------
// What holds of taking texts apart
// ---------------------------------------------------------------------------------------------

proof fn lemma_trim_start(s: Seq<char>) -> (at: int)
    ensures
        0 <= at <= s.len(),
        trim_start(s) == s.skip(at),
        forall|j: int| 0 <= j < at ==> is_whitespace(#[trigger] s[j]),
        at < s.len() ==> !is_whitespace(s[at]),
    decreases s.len(),
{
    if s.len() > 0 && is_whitespace(s[0]) {
        let rest = s.skip(1);
        let at = lemma_trim_start(rest);
        assert(rest.skip(at) =~= s.skip(at + 1));
        assert forall|j: int| 0 <= j < at + 1 implies is_whitespace(#[trigger] s[j]) by {
            if j > 0 {
                assert(rest[j - 1] == s[j]);
            }
        }
        at + 1
    } else {
        assert(s.skip(0) =~= s);
        0
    }
}

proof fn lemma_trim_end(s: Seq<char>) -> (end: int)
    ensures
        0 <= end <= s.len(),
        trim_end(s) == s.take(end),
        forall|j: int| end <= j < s.len() ==> is_whitespace(#[trigger] s[j]),
        end > 0 ==> !is_whitespace(s[end - 1]),
    decreases s.len(),
{
    if s.len() > 0 && is_whitespace(s.last()) {
        let rest = s.drop_last();
        let end = lemma_trim_end(rest);
        assert(rest.take(end) =~= s.take(end));
        assert forall|j: int| end <= j < s.len() implies is_whitespace(#[trigger] s[j]) by {
            if j < rest.len() {
                assert(rest[j] == s[j]);
            }
        }
        end
    } else {
        assert(s.take(s.len() as int) =~= s);
        s.len() as int
    }
}

/// Whether a text has nothing but white space outside a range.
pub open spec fn is_white_outside(s: Seq<char>, from: int, to: int) -> bool {
    &&& 0 <= from <= to <= s.len()
    &&& forall|j: int| 0 <= j < from || to <= j < s.len() ==> is_whitespace(#[trigger] s[j])
}

/// A trimmed text is the text without white space at its ends: it stands in the text as it is,
/// round it the text has nothing but white space, and it neither begins nor ends with any.
pub proof fn trimmed_texts_keep_their_middle(s: Seq<char>)
    ensures
        exists|from: int, to: int| #[trigger]
            is_white_outside(s, from, to) && trim(s) == s.subrange(from, to),
        trim(s).len() > 0 ==> !is_whitespace(trim(s)[0]) && !is_whitespace(trim(s).last()),
{
    let from = lemma_trim_start(s);
    let start = trim_start(s);
    let end = lemma_trim_end(start);
    let to = from + end;
    assert(trim(s) =~= s.subrange(from, to));
    assert forall|j: int| 0 <= j < from || to <= j < s.len() implies is_whitespace(
        #[trigger] s[j],
    ) by {
        if j >= to {
            assert(start[j - from] == s[j]);
        }
    }
    assert(is_white_outside(s, from, to));
    if trim(s).len() > 0 {
        assert(trim(s)[0] == s[from]);
        assert(trim(s).last() == start[end - 1]);
    }
}

/// The parts of a text that is split at a character hold it nowhere, and joined with it they are
/// the text again.
pub proof fn split_texts_join_again(s: Seq<char>, c: char)
    ensures
        split(s, c).len() > 0,
        join(split(s, c), seq![c]) == s,
        forall|i: int| 0 <= i < split(s, c).len() ==> !(#[trigger] split(s, c)[i]).contains(c),
    decreases s.len(),
{
    let at = first_of(s, c) as int;
    first_of_is_first(s, c);
    if at < s.len() {
        let first = s.take(at);
        let rest = s.skip(at + 1);
        split_texts_join_again(rest, c);
        let more = split(rest, c);
        lemma_join_first(seq![first] + more, seq![c]);
        assert((seq![first] + more).skip(1) =~= more);
        assert(first + seq![c] + rest =~= s);
        assert forall|i: int| 0 <= i < split(s, c).len() implies !(
        #[trigger] split(s, c)[i]).contains(c) by {
            if i == 0 {
                if first.contains(c) {
                    let j = choose|j: int| 0 <= j < first.len() && first[j] == c;
                    assert(s[j] == c);
                }
            } else {
                assert(split(s, c)[i] == more[i - 1]);
            }
        }
    }
}

/// Lines are read one by one: what stands before the first line feed is a line, without one
/// carriage return at its end, and the lines of what stands behind it follow. A text without a line
/// feed is one line as it is, and an empty one has none.
pub proof fn lines_are_read_one_by_one(line: Seq<char>, rest: Seq<char>)
    requires
        !line.contains('\n'),
    ensures
        lines(Seq::<char>::empty()) == Seq::<Seq<char>>::empty(),
        line.len() > 0 ==> lines(line) == seq![line],
        ({
            let all = lines(line.push('\n') + rest);
            &&& all.len() == lines(rest).len() + 1
            &&& all.skip(1) == lines(rest)
            &&& line.len() > 0 && line.last() == '\r' ==> all[0] == line.drop_last()
            &&& line.len() == 0 || line.last() != '\r' ==> all[0] == line
        }),
{
    let s = line.push('\n') + rest;
    assert forall|j: int| 0 <= j < line.len() implies s[j] != '\n' by {
        assert(s[j] == line[j]);
        assert(line.contains(line[j]));
    }
    assert(s[line.len() as int] == '\n');
    lemma_first_of(s, '\n', line.len());
    assert(s.take(line.len() as int) =~= line);
    assert(s.skip(line.len() as int + 1) =~= rest);
    assert(lines(s).skip(1) =~= lines(rest));
    assert forall|j: int| 0 <= j < line.len() implies line[j] != '\n' by {
        assert(line.contains(line[j]));
    }
    lemma_first_of(line, '\n', line.len());
}

proof fn lemma_word_first(word: Seq<char>, rest: Seq<char>)
    requires
        forall|j: int| 0 <= j < word.len() ==> !is_whitespace(#[trigger] word[j]),
        rest.len() > 0 ==> is_whitespace(rest[0]),
    ensures
        word_len(word + rest) == word.len(),
    decreases word.len(),
{
    let s = word + rest;
    if word.len() > 0 {
        assert(s[0] == word[0]);
        assert forall|j: int| 0 <= j < word.skip(1).len() implies !is_whitespace(
            #[trigger] word.skip(1)[j],
        ) by {
            assert(word.skip(1)[j] == word[j + 1]);
        }
        lemma_word_first(word.skip(1), rest);
        assert(s.skip(1) =~= word.skip(1) + rest);
    } else {
        assert(s =~= rest);
    }
}

/// Words are read one by one: white space before one is passed over, a run of other characters as
/// far as the next white space is a word, and the words of what follows come behind it. A text with
/// nothing in it has none.
pub proof fn words_are_read_one_by_one(white: char, word: Seq<char>, rest: Seq<char>)
    requires
        is_whitespace(white),
        forall|j: int| 0 <= j < word.len() ==> !is_whitespace(#[trigger] word[j]),
        rest.len() > 0 ==> is_whitespace(rest[0]),
    ensures
        words(Seq::<char>::empty()) == Seq::<Seq<char>>::empty(),
        words(seq![white] + rest) == words(rest),
        words(seq![white] + word + rest) == words(word + rest),
        word.len() > 0 ==> words(word + rest) == seq![word] + words(rest),
{
    lemma_words_white(white, rest);
    lemma_words_white(white, word + rest);
    assert(seq![white] + word + rest =~= seq![white] + (word + rest));
    if word.len() > 0 {
        let s = word + rest;
        assert(s[0] == word[0]);
        assert(trim_start(s) == s);
        lemma_word_first(word, rest);
        assert(s.take(word.len() as int) =~= word);
        assert(s.skip(word.len() as int) =~= rest);
    }
}

proof fn lemma_words_white(white: char, s: Seq<char>)
    requires
        is_whitespace(white),
    ensures
        words(seq![white] + s) == words(s),
{
    let all = seq![white] + s;
    assert(all.skip(1) =~= s);
    assert(all[0] == white);
    assert(trim_start(all) == trim_start(s));
    let at = lemma_trim_start(s);
    assert(trim_start(s).len() <= s.len());
}

/// A number that is written is read again, with a sign before it or without.
pub proof fn written_numbers_are_read_again(n: nat)
    ensures
        n <= u64::MAX ==> parse_u64(decimal(n)) == Some(n as u64),
        n > u64::MAX ==> parse_u64(decimal(n)) is None,
        n <= i64::MAX ==> parse_i64(decimal(n)) == Some(n as i64),
        n <= i64::MAX ==> parse_i64(seq!['-'] + decimal(n)) == Some((-n) as i64),
        n <= i64::MAX ==> parse_i64(seq!['+'] + decimal(n)) == Some(n as i64),
        n > i64::MAX ==> parse_i64(decimal(n)) is None,
{
    let text = decimal(n);
    decimal_writes_the_number(n);
    assert(is_digit(text[0]));
    assert((seq!['-'] + text).skip(1) =~= text);
    assert((seq!['+'] + text).skip(1) =~= text);
    assert((seq!['-'] + text)[0] == '-');
    assert((seq!['+'] + text)[0] == '+');
}

/// What is read as a number is digits, with a sign before them at most.
pub proof fn only_digits_are_numbers(s: Seq<char>)
    ensures
        parse_u64(s) is Some ==> s.len() > 0 && forall|i: int|
            0 <= i < s.len() ==> '0' <= #[trigger] s[i] <= '9' || (i == 0 && s[i] == '+'),
        parse_i64(s) is Some ==> s.len() > 0 && forall|i: int|
            0 <= i < s.len() ==> '0' <= #[trigger] s[i] <= '9' || (i == 0 && (s[i] == '+' || s[i]
                == '-')),
{
    let rest = s.skip(1);
    if s.len() > 0 && (s[0] == '+' || s[0] == '-') {
        assert forall|i: int| 0 <= i < rest.len() implies rest[i] == s[i + 1] by {}
        if all_digits(rest) {
            assert forall|i: int| 1 <= i < s.len() implies '0' <= #[trigger] s[i] <= '9' by {
                assert(is_digit(rest[i - 1]));
            }
        }
    }
}

} // verus!
