//! Text as sequences of characters.
//!
//! Every string in this crate is read through its view, a `Seq<char>`. The
//! functions here search, trim, compare and assemble such sequences. White
//! space and control codes are the characters that Unicode lists as such;
//! the tables of case mapping stay with the standard library and appear in
//! contracts under a name.

use vstd::prelude::*;
use vstd::string::StringExecFns;

verus! {

// ---------------------------------------------------------------------------
// What the standard library decides
// ---------------------------------------------------------------------------

/// `c` has the Unicode property `White_Space`: it is a tab, a line feed, a
/// vertical tab, a form feed, a carriage return, a space, a next line, a
/// no-break space, the Ogham space mark, one of the spaces from en quad to
/// hair space, a line or paragraph separator, a narrow no-break space, a
/// medium mathematical space or an ideographic space.
pub open spec fn white_space(c: char) -> bool {
    ('\u{9}' <= c && c <= '\u{d}') || c == ' ' || c == '\u{85}' || c == '\u{a0}' || c
        == '\u{1680}' || ('\u{2000}' <= c && c <= '\u{200a}') || c == '\u{2028}' || c
        == '\u{2029}' || c == '\u{202f}' || c == '\u{205f}' || c == '\u{3000}'
}

/// `c` is a control code, of the general category `Cc`: one of the first
/// thirty-two characters, or one from delete to application program command.
pub open spec fn control_code(c: char) -> bool {
    c <= '\u{1f}' || ('\u{7f}' <= c && c <= '\u{9f}')
}

/// The Unicode lowercase form of a text, as `str::to_lowercase` computes it.
pub uninterp spec fn unicode_lowercase(s: Seq<char>) -> Seq<char>;

/// The Unicode uppercase form of a text, as `str::to_uppercase` computes it.
pub uninterp spec fn unicode_uppercase(s: Seq<char>) -> Seq<char>;

/// `char::is_whitespace` tells whether a character has the Unicode property
/// `White_Space`. The claim: those are the characters that `white_space` lists.
pub assume_specification[ char::is_whitespace ](c: char) -> (r: bool)
    ensures
        r == white_space(c),
;

/// `char::is_control` tells whether a character has the general category of
/// control codes. The claim: those are the characters that `control_code` lists.
pub assume_specification[ char::is_control ](c: char) -> (r: bool)
    ensures
        r == control_code(c),
;

/// `str::to_lowercase`: the result depends on the characters alone.
pub assume_specification[ str::to_lowercase ](s: &str) -> (r: String)
    ensures
        r@ == unicode_lowercase(s@),
;

/// `str::to_uppercase`: the result depends on the characters alone.
pub assume_specification[ str::to_uppercase ](s: &str) -> (r: String)
    ensures
        r@ == unicode_uppercase(s@),
;

/// `String::push` appends one character.
pub assume_specification[ String::push ](s: &mut String, c: char)
    ensures
        final(s)@ == old(s)@.push(c),
;

// ---------------------------------------------------------------------------
// Characters
// ---------------------------------------------------------------------------

/// `c` is one of the digits `0` to `9`.
pub open spec fn is_ascii_digit(c: char) -> bool {
    '0' <= c && c <= '9'
}

/// `c` is a digit or one of the letters `a` to `z` and `A` to `Z`.
pub open spec fn is_ascii_alphanumeric(c: char) -> bool {
    ('0' <= c && c <= '9') || ('a' <= c && c <= 'z') || ('A' <= c && c <= 'Z')
}

/// `c` with the letters `A` to `Z` mapped to `a` to `z`.
pub open spec fn ascii_lower(c: char) -> char {
    if 'A' <= c && c <= 'Z' {
        ((c as u8) + 32) as u8 as char
    } else {
        c
    }
}

/// Whether `c` is one of the digits `0` to `9`.
pub fn char_is_ascii_digit(c: char) -> (r: bool)
    ensures
        r == is_ascii_digit(c),
{
    '0' <= c && c <= '9'
}

/// Whether `c` is a digit or one of the letters `a` to `z` and `A` to `Z`.
pub fn char_is_ascii_alphanumeric(c: char) -> (r: bool)
    ensures
        r == is_ascii_alphanumeric(c),
{
    ('0' <= c && c <= '9') || ('a' <= c && c <= 'z') || ('A' <= c && c <= 'Z')
}

/// `c` with the letters `A` to `Z` mapped to `a` to `z`.
pub fn char_ascii_lower(c: char) -> (r: char)
    ensures
        r == ascii_lower(c),
{
    if 'A' <= c && c <= 'Z' {
        let b: u8 = c as u8;
        (b + 32) as char
    } else {
        c
    }
}

// ---------------------------------------------------------------------------
// Conversions
// ---------------------------------------------------------------------------

/// The characters of `s`, in order.
pub fn chars_of(s: &str) -> (out: Vec<char>)
    ensures
        out@ == s@,
{
    let mut out: Vec<char> = Vec::new();
    let it = s.chars();
    for c in iter: it
        invariant
            out@ == iter.history(),
    {
        out.push(c);
    }
    out
}

/// The string made of `chars`, in order.
pub fn string_of(chars: &Vec<char>) -> (out: String)
    ensures
        out@ == chars@,
{
    let mut out = String::new();
    let mut i: usize = 0;
    while i < chars.len()
        invariant
            i <= chars.len(),
            out@ == chars@.take(i as int),
        decreases chars.len() - i,
    {
        out.push(chars[i]);
        proof {
            assert(chars@.take(i + 1) == chars@.take(i as int).push(chars@[i as int]));
        }
        i += 1;
    }
    proof {
        assert(chars@.take(chars.len() as int) == chars@);
    }
    out
}

/// The characters of `v` from position `from` up to, not including, `to`.
pub fn slice(v: &Vec<char>, from: usize, to: usize) -> (out: Vec<char>)
    requires
        from <= to <= v.len(),
    ensures
        out@ == v@.subrange(from as int, to as int),
{
    let mut out: Vec<char> = Vec::new();
    let mut i: usize = from;
    while i < to
        invariant
            from <= i <= to <= v.len(),
            out@ == v@.subrange(from as int, i as int),
        decreases to - i,
    {
        out.push(v[i]);
        proof {
            assert(v@.subrange(from as int, i + 1) == v@.subrange(from as int, i as int).push(
                v@[i as int],
            ));
        }
        i += 1;
    }
    out
}

/// Whether two texts hold the same characters.
pub fn same_text(a: &Vec<char>, b: &Vec<char>) -> (r: bool)
    ensures
        r == (a@ == b@),
{
    if a.len() != b.len() {
        return false;
    }
    let mut i: usize = 0;
    while i < a.len()
        invariant
            i <= a.len(),
            a.len() == b.len(),
            a@.take(i as int) == b@.take(i as int),
        decreases a.len() - i,
    {
        if a[i] != b[i] {
            return false;
        }
        proof {
            assert(a@.take(i + 1) == a@.take(i as int).push(a@[i as int]));
            assert(b@.take(i + 1) == b@.take(i as int).push(b@[i as int]));
        }
        i += 1;
    }
    proof {
        assert(a@.take(a.len() as int) == a@);
        assert(b@.take(b.len() as int) == b@);
    }
    true
}

/// Whether two strings hold the same characters.
pub fn same_str(a: &str, b: &str) -> (r: bool)
    ensures
        r == (a@ == b@),
{
    let x = chars_of(a);
    let y = chars_of(b);
    same_text(&x, &y)
}

// ---------------------------------------------------------------------------
// Searching
// ---------------------------------------------------------------------------

/// `needle` stands in `hay` at position `i`.
pub open spec fn occurs_at(hay: Seq<char>, needle: Seq<char>, i: int) -> bool {
    0 <= i && i + needle.len() <= hay.len() && hay.subrange(i, i + needle.len()) == needle
}

/// The first position at or after `from` where `needle` stands in `hay`.
pub open spec fn find_from(hay: Seq<char>, needle: Seq<char>, from: int) -> Option<int>
    decreases hay.len() + 1 - from,
{
    if from < 0 || from + needle.len() > hay.len() {
        None
    } else if occurs_at(hay, needle, from) {
        Some(from)
    } else {
        find_from(hay, needle, from + 1)
    }
}

/// The first position where `needle` stands in `hay`.
pub open spec fn find(hay: Seq<char>, needle: Seq<char>) -> Option<int> {
    find_from(hay, needle, 0)
}

/// `needle` stands somewhere in `hay`.
pub open spec fn contains(hay: Seq<char>, needle: Seq<char>) -> bool {
    find(hay, needle) is Some
}

/// The last position of the character `c` in `hay`.
pub open spec fn last_index_of(hay: Seq<char>, c: char) -> Option<int>
    decreases hay.len(),
{
    if hay.len() == 0 {
        None
    } else if hay.last() == c {
        Some(hay.len() - 1)
    } else {
        last_index_of(hay.drop_last(), c)
    }
}

/// `s` begins with `prefix`.
pub open spec fn starts_with(s: Seq<char>, prefix: Seq<char>) -> bool {
    occurs_at(s, prefix, 0)
}

/// `s` ends with `suffix`.
pub open spec fn ends_with(s: Seq<char>, suffix: Seq<char>) -> bool {
    occurs_at(s, suffix, s.len() - suffix.len())
}

/// `find_from` returns an occurrence, and none stands between `from` and it.
pub proof fn lemma_find_from(hay: Seq<char>, needle: Seq<char>, from: int)
    requires
        0 <= from,
    ensures
        match find_from(hay, needle, from) {
            Some(i) => from <= i && occurs_at(hay, needle, i) && forall|j: int|
                from <= j < i ==> !occurs_at(hay, needle, j),
            None => forall|j: int| from <= j ==> !occurs_at(hay, needle, j),
        },
    decreases hay.len() + 1 - from,
{
    if from + needle.len() > hay.len() {
    } else if occurs_at(hay, needle, from) {
    } else {
        lemma_find_from(hay, needle, from + 1);
    }
}

/// `find` names the first occurrence: it answers `Some(i)` exactly when `needle`
/// stands at `i` and at no earlier position, and `None` exactly when it stands nowhere.
pub proof fn lemma_find_is_first(hay: Seq<char>, needle: Seq<char>)
    ensures
        forall|i: int|
            find(hay, needle) == Some(i) <==> (occurs_at(hay, needle, i) && forall|j: int|
                0 <= j < i ==> !occurs_at(hay, needle, j)),
        find(hay, needle) is None <==> forall|j: int| !occurs_at(hay, needle, j),
        contains(hay, needle) <==> exists|j: int| occurs_at(hay, needle, j),
{
    lemma_find_from(hay, needle, 0);
    assert forall|i: int|
        (occurs_at(hay, needle, i) && forall|j: int|
            0 <= j < i ==> !occurs_at(hay, needle, j)) implies find(hay, needle) == Some(i) by {
        match find(hay, needle) {
            Some(k) => {
                if k < i {
                    assert(!occurs_at(hay, needle, k));
                } else if i < k {
                    assert(!occurs_at(hay, needle, i));
                }
            },
            None => {
                assert(!occurs_at(hay, needle, i));
            },
        }
    }
    if find(hay, needle) is Some {
        assert(occurs_at(hay, needle, find(hay, needle)->0));
    }
}

/// Whether `needle` stands in `hay` at position `i`.
pub fn matches_at(hay: &Vec<char>, needle: &Vec<char>, i: usize) -> (r: bool)
    ensures
        r == occurs_at(hay@, needle@, i as int),
{
    if needle.len() > hay.len() || i > hay.len() - needle.len() {
        return false;
    }
    let mut k: usize = 0;
    while k < needle.len()
        invariant
            k <= needle.len(),
            i + needle.len() <= hay.len(),
            hay@.subrange(i as int, i + k) == needle@.take(k as int),
        decreases needle.len() - k,
    {
        if hay[i + k] != needle[k] {
            proof {
                assert(hay@.subrange(i as int, i + needle.len())[k as int] == hay@[i + k]);
            }
            return false;
        }
        proof {
            assert(hay@.subrange(i as int, i + k + 1) == hay@.subrange(i as int, i + k).push(
                hay@[i + k],
            ));
            assert(needle@.take(k + 1) == needle@.take(k as int).push(needle@[k as int]));
        }
        k += 1;
    }
    proof {
        assert(needle@.take(needle.len() as int) == needle@);
    }
    true
}

/// The first position at or after `from` where `needle` stands in `hay`.
pub fn find_in_from(hay: &Vec<char>, needle: &Vec<char>, from: usize) -> (r: Option<usize>)
    ensures
        match r {
            Some(i) => find_from(hay@, needle@, from as int) == Some(i as int) && from <= i && i
                + needle@.len() <= hay@.len(),
            None => find_from(hay@, needle@, from as int) is None,
        },
{
    if needle.len() > hay.len() || from > hay.len() - needle.len() {
        return None;
    }
    let last: usize = hay.len() - needle.len();
    let mut i: usize = from;
    loop
        invariant
            from <= i <= last,
            last == hay.len() - needle.len(),
            find_from(hay@, needle@, from as int) == find_from(hay@, needle@, i as int),
        decreases last - i,
    {
        if matches_at(hay, needle, i) {
            return Some(i);
        }
        if i == last {
            proof {
                assert(find_from(hay@, needle@, i + 1) is None);
            }
            return None;
        }
        i += 1;
    }
}

/// The first position where `needle` stands in `hay`.
pub fn find_in(hay: &Vec<char>, needle: &Vec<char>) -> (r: Option<usize>)
    ensures
        match r {
            Some(i) => find(hay@, needle@) == Some(i as int) && i + needle@.len() <= hay@.len(),
            None => find(hay@, needle@) is None,
        },
{
    find_in_from(hay, needle, 0)
}

/// Whether the literal `needle` stands somewhere in `hay`.
pub fn has(hay: &Vec<char>, needle: &str) -> (r: bool)
    ensures
        r == contains(hay@, needle@),
{
    let n = chars_of(needle);
    find_in(hay, &n).is_some()
}

/// The last position of `c` in `hay`.
pub fn rfind_char(hay: &Vec<char>, c: char) -> (r: Option<usize>)
    ensures
        match r {
            Some(i) => last_index_of(hay@, c) == Some(i as int) && i < hay@.len(),
            None => last_index_of(hay@, c) is None,
        },
{
    let mut i: usize = hay.len();
    proof {
        assert(hay@.take(hay.len() as int) == hay@);
    }
    while i > 0
        invariant
            i <= hay.len(),
            last_index_of(hay@, c) == last_index_of(hay@.take(i as int), c),
        decreases i,
    {
        if hay[i - 1] == c {
            return Some(i - 1);
        }
        proof {
            assert(hay@.take(i as int).drop_last() == hay@.take(i - 1));
        }
        i -= 1;
    }
    None
}

/// Whether `v` begins with `prefix`.
pub fn begins_with(v: &Vec<char>, prefix: &Vec<char>) -> (r: bool)
    ensures
        r == starts_with(v@, prefix@),
{
    matches_at(v, prefix, 0)
}

/// Whether `v` ends with `suffix`.
pub fn finishes_with(v: &Vec<char>, suffix: &Vec<char>) -> (r: bool)
    ensures
        r == ends_with(v@, suffix@),
{
    if suffix.len() > v.len() {
        return false;
    }
    matches_at(v, suffix, v.len() - suffix.len())
}

// ---------------------------------------------------------------------------
// Trimming
// ---------------------------------------------------------------------------

/// `s` without its leading white space.
pub open spec fn trim_start(s: Seq<char>) -> Seq<char>
    decreases s.len(),
{
    if s.len() > 0 && white_space(s[0]) {
        trim_start(s.drop_first())
    } else {
        s
    }
}

/// `s` without its trailing white space.
pub open spec fn trim_end(s: Seq<char>) -> Seq<char>
    decreases s.len(),
{
    if s.len() > 0 && white_space(s.last()) {
        trim_end(s.drop_last())
    } else {
        s
    }
}

/// `s` without its leading and trailing white space.
pub open spec fn trim(s: Seq<char>) -> Seq<char> {
    trim_end(trim_start(s))
}

/// Trimming leaves alone what stands between a first and a last character
/// that are no white space. Of a text made of a head, a core and a tail,
/// where the core begins and ends otherwise than in white space, the head is
/// trimmed at its start, the tail at its end, and the core is kept.
pub proof fn lemma_trim_append(head: Seq<char>, core: Seq<char>, tail: Seq<char>)
    requires
        core.len() > 0,
        !white_space(core.first()),
        !white_space(core.last()),
    ensures
        trim_start(head + core) == trim_start(head) + core,
        trim_end(core + tail) == core + trim_end(tail),
        trim(head + core + tail) == trim_start(head) + core + trim_end(tail),
{
    lemma_trim_start_append(head, core + tail);
    lemma_trim_start_append(head, core);
    lemma_trim_end_append(trim_start(head) + core, tail);
    lemma_trim_end_append(core, tail);
    assert(head + core + tail =~= head + (core + tail));
    assert(trim_start(head) + (core + tail) =~= (trim_start(head) + core) + tail);
}

proof fn lemma_trim_start_append(head: Seq<char>, rest: Seq<char>)
    requires
        rest.len() > 0,
        !white_space(rest.first()),
    ensures
        trim_start(head + rest) == trim_start(head) + rest,
    decreases head.len(),
{
    if head.len() == 0 {
        assert(head + rest =~= rest);
        assert(trim_start(head) + rest =~= rest);
    } else if white_space(head[0]) {
        assert((head + rest).drop_first() =~= head.drop_first() + rest);
        lemma_trim_start_append(head.drop_first(), rest);
    } else {
        assert((head + rest)[0] == head[0]);
    }
}

proof fn lemma_trim_end_append(rest: Seq<char>, tail: Seq<char>)
    requires
        rest.len() > 0,
        !white_space(rest.last()),
    ensures
        trim_end(rest + tail) == rest + trim_end(tail),
    decreases tail.len(),
{
    if tail.len() == 0 {
        assert(rest + tail =~= rest);
        assert(rest + trim_end(tail) =~= rest);
    } else if white_space(tail.last()) {
        assert((rest + tail).drop_last() =~= rest + tail.drop_last());
        lemma_trim_end_append(rest, tail.drop_last());
    } else {
        assert((rest + tail).last() == tail.last());
    }
}

/// What is trimmed neither begins nor ends with white space.
pub proof fn lemma_trim_ends(s: Seq<char>)
    ensures
        trim(s).len() > 0 ==> !white_space(trim(s).first()) && !white_space(trim(s).last()),
        trim_start(s).len() > 0 ==> !white_space(trim_start(s).first()),
        trim_end(s).len() > 0 ==> !white_space(trim_end(s).last()),
{
    lemma_trim_start_begins(s);
    lemma_trim_end_ends(s);
    lemma_trim_end_ends(trim_start(s));
    lemma_trim_end_keeps_start(trim_start(s));
}

proof fn lemma_trim_start_begins(s: Seq<char>)
    ensures
        trim_start(s).len() > 0 ==> !white_space(trim_start(s).first()),
    decreases s.len(),
{
    if s.len() > 0 && white_space(s[0]) {
        lemma_trim_start_begins(s.drop_first());
    }
}

proof fn lemma_trim_end_ends(s: Seq<char>)
    ensures
        trim_end(s).len() > 0 ==> !white_space(trim_end(s).last()),
    decreases s.len(),
{
    if s.len() > 0 && white_space(s.last()) {
        lemma_trim_end_ends(s.drop_last());
    }
}

proof fn lemma_trim_end_keeps_start(s: Seq<char>)
    requires
        s.len() > 0 ==> !white_space(s.first()),
    ensures
        trim_end(s).len() > 0 ==> s.len() > 0 && trim_end(s).first() == s.first(),
        s.len() > 0 ==> trim_end(s).len() > 0,
    decreases s.len(),
{
    if s.len() > 1 && white_space(s.last()) {
        assert(s.drop_last().first() == s.first());
        lemma_trim_end_keeps_start(s.drop_last());
    }
}

/// What is trimmed is a part of what was there.
pub proof fn lemma_trim_is_a_part(s: Seq<char>)
    ensures
        exists|from: int, to: int| 0 <= from <= to <= s.len() && trim(s) == s.subrange(from, to),
{
    lemma_trim_start_is_a_part(s);
    let from = choose|from: int| 0 <= from <= s.len() && trim_start(s) == s.subrange(from, s.len() as int);
    let t = trim_start(s);
    lemma_trim_end_is_a_part(t);
    let to = choose|to: int| 0 <= to <= t.len() && trim_end(t) == t.subrange(0, to);
    assert(trim(s) =~= s.subrange(from, from + to));
}

proof fn lemma_trim_start_is_a_part(s: Seq<char>)
    ensures
        exists|from: int| 0 <= from <= s.len() && trim_start(s) == s.subrange(from, s.len() as int),
    decreases s.len(),
{
    if s.len() > 0 && white_space(s[0]) {
        lemma_trim_start_is_a_part(s.drop_first());
        let t = s.drop_first();
        let from = choose|from: int| 0 <= from <= t.len() && trim_start(t) == t.subrange(from, t.len() as int);
        assert(t.subrange(from, t.len() as int) =~= s.subrange(from + 1, s.len() as int));
    } else {
        assert(s =~= s.subrange(0, s.len() as int));
    }
}

proof fn lemma_trim_end_is_a_part(s: Seq<char>)
    ensures
        exists|to: int| 0 <= to <= s.len() && trim_end(s) == s.subrange(0, to),
    decreases s.len(),
{
    if s.len() > 0 && white_space(s.last()) {
        lemma_trim_end_is_a_part(s.drop_last());
        let t = s.drop_last();
        let to = choose|to: int| 0 <= to <= t.len() && trim_end(t) == t.subrange(0, to);
        assert(t.subrange(0, to) =~= s.subrange(0, to));
    } else {
        assert(s =~= s.subrange(0, s.len() as int));
    }
}

/// `v` without its leading white space.
pub fn trimmed_start(v: &Vec<char>) -> (out: Vec<char>)
    ensures
        out@ == trim_start(v@),
{
    let mut from: usize = 0;
    proof {
        assert(v@.skip(0) == v@);
    }
    while from < v.len() && v[from].is_whitespace()
        invariant
            from <= v.len(),
            trim_start(v@) == trim_start(v@.skip(from as int)),
        decreases v.len() - from,
    {
        proof {
            assert(v@.skip(from as int).drop_first() == v@.skip(from + 1));
        }
        from += 1;
    }
    proof {
        assert(v@.skip(from as int) == v@.subrange(from as int, v.len() as int));
    }
    slice(v, from, v.len())
}

/// `v` without its trailing white space.
pub fn trimmed_end(v: &Vec<char>) -> (out: Vec<char>)
    ensures
        out@ == trim_end(v@),
{
    let mut to: usize = v.len();
    proof {
        assert(v@.take(v.len() as int) == v@);
    }
    while to > 0 && v[to - 1].is_whitespace()
        invariant
            to <= v.len(),
            trim_end(v@) == trim_end(v@.take(to as int)),
        decreases to,
    {
        proof {
            assert(v@.take(to as int).drop_last() == v@.take(to - 1));
        }
        to -= 1;
    }
    proof {
        assert(v@.take(to as int) == v@.subrange(0, to as int));
    }
    slice(v, 0, to)
}

/// `v` without its leading and trailing white space.
pub fn trimmed(v: &Vec<char>) -> (out: Vec<char>)
    ensures
        out@ == trim(v@),
{
    let head = trimmed_start(v);
    trimmed_end(&head)
}

// ---------------------------------------------------------------------------
// Rewriting and assembling
// ---------------------------------------------------------------------------

/// `s` with every line feed replaced by a space.
pub open spec fn flatten_lines(s: Seq<char>) -> Seq<char> {
    Seq::new(s.len(), |i: int| if s[i] == '\n' { ' ' } else { s[i] })
}

/// `s` with every line feed replaced by a space.
pub fn flattened(s: &str) -> (out: String)
    ensures
        out@ == flatten_lines(s@),
{
    let v = chars_of(s);
    let mut out = String::new();
    let mut i: usize = 0;
    while i < v.len()
        invariant
            i <= v.len(),
            v@ == s@,
            out@ == flatten_lines(s@).take(i as int),
        decreases v.len() - i,
    {
        let c = v[i];
        if c == '\n' {
            out.push(' ');
        } else {
            out.push(c);
        }
        proof {
            assert(flatten_lines(s@).take(i + 1) == flatten_lines(s@).take(i as int).push(
                flatten_lines(s@)[i as int],
            ));
        }
        i += 1;
    }
    proof {
        assert(flatten_lines(s@).take(v.len() as int) == flatten_lines(s@));
    }
    out
}

/// The texts of `parts` in order, with `sep` between neighbours.
pub open spec fn join(parts: Seq<Seq<char>>, sep: Seq<char>) -> Seq<char>
    decreases parts.len(),
{
    if parts.len() == 0 {
        Seq::empty()
    } else if parts.len() == 1 {
        parts[0]
    } else {
        join(parts.drop_last(), sep) + sep + parts.last()
    }
}

/// The views of a list of strings.
pub open spec fn views(items: Seq<String>) -> Seq<Seq<char>> {
    Seq::new(items.len(), |i: int| items[i]@)
}

/// The strings of `parts` in order, with `sep` between neighbours.
pub fn joined(parts: &Vec<String>, sep: &str) -> (out: String)
    ensures
        out@ == join(views(parts@), sep@),
{
    let mut out = String::new();
    let mut i: usize = 0;
    while i < parts.len()
        invariant
            i <= parts.len(),
            out@ == join(views(parts@).take(i as int), sep@),
        decreases parts.len() - i,
    {
        if i > 0 {
            out.append(sep);
        }
        out.append(parts[i].as_str());
        proof {
            let all = views(parts@);
            assert(all.take(i + 1).drop_last() == all.take(i as int));
            assert(all.take(i + 1).last() == parts@[i as int]@);
            if i == 0 {
                assert(all.take(1)[0] == parts@[0]@);
                assert(out@ == parts@[0]@);
            }
        }
        i += 1;
    }
    proof {
        assert(views(parts@).take(parts.len() as int) == views(parts@));
    }
    out
}

// ---------------------------------------------------------------------------
// Order
// ---------------------------------------------------------------------------

/// `a` does not come after `b` in the order of dictionaries, character by character.
pub open spec fn lex_le(a: Seq<char>, b: Seq<char>) -> bool
    decreases a.len(),
{
    if a.len() == 0 {
        true
    } else if b.len() == 0 {
        false
    } else if a[0] != b[0] {
        a[0] < b[0]
    } else {
        lex_le(a.drop_first(), b.drop_first())
    }
}

/// Every text stands in order with itself.
pub proof fn lemma_lex_reflexive(a: Seq<char>)
    ensures
        lex_le(a, a),
    decreases a.len(),
{
    if a.len() > 0 {
        lemma_lex_reflexive(a.drop_first());
    }
}

/// Of two texts, one does not come after the other.
pub proof fn lemma_lex_total(a: Seq<char>, b: Seq<char>)
    ensures
        lex_le(a, b) || lex_le(b, a),
    decreases a.len(),
{
    if a.len() > 0 && b.len() > 0 && a[0] == b[0] {
        lemma_lex_total(a.drop_first(), b.drop_first());
    }
}

/// What does not come after a text does not come after what that text does not come after.
pub proof fn lemma_lex_transitive(a: Seq<char>, b: Seq<char>, c: Seq<char>)
    requires
        lex_le(a, b),
        lex_le(b, c),
    ensures
        lex_le(a, c),
    decreases a.len(),
{
    if a.len() > 0 && b.len() > 0 && c.len() > 0 && a[0] == b[0] && b[0] == c[0] {
        lemma_lex_transitive(a.drop_first(), b.drop_first(), c.drop_first());
    }
}

/// Whether `a` does not come after `b` in the order of dictionaries.
pub fn text_le(a: &Vec<char>, b: &Vec<char>) -> (r: bool)
    ensures
        r == lex_le(a@, b@),
{
    let mut i: usize = 0;
    proof {
        assert(a@.skip(0) == a@);
        assert(b@.skip(0) == b@);
    }
    while i < a.len() && i < b.len()
        invariant
            i <= a.len(),
            i <= b.len(),
            lex_le(a@, b@) == lex_le(a@.skip(i as int), b@.skip(i as int)),
        decreases a.len() - i,
    {
        if a[i] != b[i] {
            return a[i] < b[i];
        }
        proof {
            assert(a@.skip(i as int).drop_first() == a@.skip(i + 1));
            assert(b@.skip(i as int).drop_first() == b@.skip(i + 1));
        }
        i += 1;
    }
    i == a.len()
}

} // verus!
