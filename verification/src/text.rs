//! Text as a sequence of characters: the string operations that the rest of
//! the library is written in, each with a contract over `Seq<char>`.
use vstd::prelude::*;

verus! {

/// `String::push` appends one character.
pub assume_specification[ String::push ](s: &mut String, c: char)
    ensures
        final(s)@ == old(s)@.push(c),
;

// ---------------------------------------------------------------------------
// Views
// ---------------------------------------------------------------------------

/// The texts held by a sequence of strings.
pub open spec fn texts(v: Seq<String>) -> Seq<Seq<char>> {
    Seq::new(v.len(), |i: int| v[i]@)
}

/// The text held by an optional string.
pub open spec fn opt_text(o: Option<String>) -> Option<Seq<char>> {
    match o {
        Some(s) => Some(s@),
        None => None,
    }
}

/// The number of bytes of a text in UTF-8.
pub open spec fn byte_len(s: Seq<char>) -> nat {
    vstd::utf8::encode_utf8(s).len()
}

// ---------------------------------------------------------------------------
// Equality, copying and assembling
// ---------------------------------------------------------------------------

/// Compares two texts.
pub fn str_eq(a: &str, b: &str) -> (r: bool)
    ensures
        r == (a@ == b@),
{
    a.to_owned() == b.to_owned()
}

/// The characters of a text.
pub fn to_chars(s: &str) -> (r: Vec<char>)
    ensures
        r@ == s@,
{
    let mut out: Vec<char> = Vec::new();
    for c in it: s.chars()
        invariant
            out@ == it.seq().take(it.index() as int),
            it.seq() == s@,
    {
        out.push(c);
    }
    assert(out@ =~= s@);
    out
}

/// The text made of the characters of `v` from `from` up to `to`.
pub fn slice_text(v: &Vec<char>, from: usize, to: usize) -> (r: String)
    requires
        from <= to <= v@.len(),
    ensures
        r@ == v@.subrange(from as int, to as int),
{
    let mut out = String::new();
    let mut i: usize = from;
    while i < to
        invariant
            from <= i <= to <= v@.len(),
            out@ == v@.subrange(from as int, i as int),
        decreases to - i,
    {
        out.push(v[i]);
        proof {
            assert(v@.subrange(from as int, i as int).push(v@[i as int]) =~= v@.subrange(
                from as int,
                i + 1,
            ));
        }
        i = i + 1;
    }
    out
}

/// Concatenates two texts.
pub fn cat2(a: &str, b: &str) -> (r: String)
    ensures
        r@ == a@ + b@,
{
    let mut out = a.to_owned();
    out.append(b);
    out
}

/// Concatenates three texts.
pub fn cat3(a: &str, b: &str, c: &str) -> (r: String)
    ensures
        r@ == a@ + b@ + c@,
{
    let mut out = a.to_owned();
    out.append(b);
    out.append(c);
    out
}

/// Copies a list of strings.
pub fn clone_texts(v: &Vec<String>) -> (r: Vec<String>)
    ensures
        r@ == v@,
{
    let mut out: Vec<String> = Vec::new();
    let mut i: usize = 0;
    while i < v.len()
        invariant
            i <= v@.len(),
            out@ == v@.take(i as int),
        decreases v@.len() - i,
    {
        out.push(v[i].clone());
        proof {
            assert(v@.take(i as int).push(v@[i as int]) =~= v@.take(i + 1));
        }
        i = i + 1;
    }
    assert(out@ =~= v@);
    out
}

/// Tells whether a list of strings holds a text.
pub fn holds_text(v: &Vec<String>, s: &str) -> (r: bool)
    ensures
        r == texts(v@).contains(s@),
{
    let mut i: usize = 0;
    while i < v.len()
        invariant
            i <= v@.len(),
            forall|j: int| 0 <= j < i ==> v@[j]@ != s@,
        decreases v@.len() - i,
    {
        if str_eq(v[i].as_str(), s) {
            assert(texts(v@)[i as int] == s@);
            return true;
        }
        i = i + 1;
    }
    assert forall|j: int| 0 <= j < texts(v@).len() implies texts(v@)[j] != s@ by {}
    false
}

/// The length of a text in UTF-8 bytes.
pub fn utf8_len(s: &str) -> (r: usize)
    ensures
        r == byte_len(s@),
{
    s.as_bytes().len()
}

// ---------------------------------------------------------------------------
// White space and trimming
// ---------------------------------------------------------------------------

/// The characters with the Unicode property White_Space.
pub open spec fn is_space(c: char) -> bool {
    ||| '\u{9}' <= c <= '\u{d}'
    ||| c == ' '
    ||| c == '\u{85}'
    ||| c == '\u{a0}'
    ||| c == '\u{1680}'
    ||| '\u{2000}' <= c <= '\u{200a}'
    ||| c == '\u{2028}'
    ||| c == '\u{2029}'
    ||| c == '\u{202f}'
    ||| c == '\u{205f}'
    ||| c == '\u{3000}'
}

/// Tells whether a character is white space.
pub fn is_space_char(c: char) -> (r: bool)
    ensures
        r == is_space(c),
{
    ('\u{9}' <= c && c <= '\u{d}') || c == ' ' || c == '\u{85}' || c == '\u{a0}' || c == '\u{1680}'
        || ('\u{2000}' <= c && c <= '\u{200a}') || c == '\u{2028}' || c == '\u{2029}' || c
        == '\u{202f}' || c == '\u{205f}' || c == '\u{3000}'
}

/// A text without its leading white space.
pub open spec fn trim_start(s: Seq<char>) -> Seq<char>
    decreases s.len(),
{
    if s.len() > 0 && is_space(s[0]) {
        trim_start(s.drop_first())
    } else {
        s
    }
}

/// A text without its trailing white space.
pub open spec fn trim_end(s: Seq<char>) -> Seq<char>
    decreases s.len(),
{
    if s.len() > 0 && is_space(s.last()) {
        trim_end(s.drop_last())
    } else {
        s
    }
}

/// A text without the white space at either end.
pub open spec fn trim(s: Seq<char>) -> Seq<char> {
    trim_end(trim_start(s))
}

/// The first position at or after `from` that holds no white space.
pub fn skip_space(v: &Vec<char>, from: usize) -> (r: usize)
    requires
        from <= v@.len(),
    ensures
        from <= r <= v@.len(),
        v@.skip(r as int) == trim_start(v@.skip(from as int)),
{
    let mut i: usize = from;
    while i < v.len() && is_space_char(v[i])
        invariant
            from <= i <= v@.len(),
            trim_start(v@.skip(i as int)) == trim_start(v@.skip(from as int)),
        decreases v@.len() - i,
    {
        proof {
            assert(v@.skip(i as int)[0] == v@[i as int]);
            assert(v@.skip(i as int).drop_first() =~= v@.skip(i + 1));
        }
        i = i + 1;
    }
    proof {
        if i < v@.len() {
            assert(v@.skip(i as int)[0] == v@[i as int]);
        }
    }
    i
}

/// Removes the white space at both ends of a text.
pub fn trim_text(s: &str) -> (r: String)
    ensures
        r@ == trim(s@),
{
    let v = to_chars(s);
    let i: usize = skip_space(&v, 0);
    let mut j: usize = v.len();
    proof {
        assert(v@.skip(0) =~= s@);
        assert(v@.skip(i as int) =~= v@.subrange(i as int, j as int));
    }
    while j > i && is_space_char(v[j - 1])
        invariant
            i <= j <= v@.len(),
            trim_end(v@.subrange(i as int, j as int)) == trim(s@),
        decreases j,
    {
        proof {
            assert(v@.subrange(i as int, j as int).last() == v@[j - 1]);
            assert(v@.subrange(i as int, j as int).drop_last() =~= v@.subrange(i as int, j - 1));
        }
        j = j - 1;
    }
    proof {
        if j > i {
            assert(v@.subrange(i as int, j as int).last() == v@[j - 1]);
        }
    }
    slice_text(&v, i, j)
}

// ---------------------------------------------------------------------------
// Searching
// ---------------------------------------------------------------------------

/// `needle` stands in `hay` at position `i`.
pub open spec fn matches_at(hay: Seq<char>, needle: Seq<char>, i: int) -> bool {
    0 <= i && i + needle.len() <= hay.len() && hay.subrange(i, i + needle.len()) == needle
}

/// `needle` stands somewhere in `hay`.
pub open spec fn has_text(hay: Seq<char>, needle: Seq<char>) -> bool {
    exists|i: int| matches_at(hay, needle, i)
}

/// Tells whether `needle` stands in `hay` at position `i`.
pub fn match_at(hay: &Vec<char>, needle: &Vec<char>, i: usize) -> (r: bool)
    ensures
        r == matches_at(hay@, needle@, i as int),
{
    if i > hay.len() || needle.len() > hay.len() - i {
        return false;
    }
    let n: usize = hay.len();
    let mut k: usize = 0;
    while k < needle.len()
        invariant
            n == hay@.len(),
            i + needle@.len() <= n,
            k <= needle@.len(),
            forall|j: int| 0 <= j < k ==> hay@[i + j] == needle@[j],
        decreases needle@.len() - k,
    {
        if hay[i + k] != needle[k] {
            assert(hay@.subrange(i as int, i + needle@.len())[k as int] == hay@[i + k]);
            return false;
        }
        k = k + 1;
    }
    assert(hay@.subrange(i as int, i + needle@.len()) =~= needle@);
    true
}

/// The first position at or after `from` where `needle` stands in `hay`.
pub fn find_from(hay: &Vec<char>, needle: &Vec<char>, from: usize) -> (r: Option<usize>)
    ensures
        match r {
            Some(i) => {
                &&& from <= i
                &&& matches_at(hay@, needle@, i as int)
                &&& forall|j: int| from <= j < i ==> !matches_at(hay@, needle@, j)
            },
            None => forall|j: int| from <= j ==> !matches_at(hay@, needle@, j),
        },
{
    let mut i: usize = from;
    while i <= hay.len()
        invariant
            from <= i,
            hay@.len() < usize::MAX || i <= hay@.len(),
            forall|j: int| from <= j < i ==> !matches_at(hay@, needle@, j),
        decreases hay@.len() + 1 - i,
    {
        if match_at(hay, needle, i) {
            return Some(i);
        }
        if i == hay.len() {
            return None;
        }
        i = i + 1;
    }
    None
}

/// Tells whether `needle` stands somewhere in `hay`.
pub fn contains_text(hay: &str, needle: &str) -> (r: bool)
    ensures
        r == has_text(hay@, needle@),
{
    let h = to_chars(hay);
    let n = to_chars(needle);
    match find_from(&h, &n, 0) {
        Some(i) => {
            assert(matches_at(hay@, needle@, i as int));
            true
        },
        None => false,
    }
}

/// Tells whether a text begins with another.
pub fn starts_with(s: &str, prefix: &str) -> (r: bool)
    ensures
        r == prefix@.is_prefix_of(s@),
{
    let v = to_chars(s);
    let p = to_chars(prefix);
    let r = match_at(&v, &p, 0);
    proof {
        assert(0 + prefix@.len() == prefix@.len());
    }
    r
}

/// Tells whether a text ends with another.
pub fn ends_with(s: &str, suffix: &str) -> (r: bool)
    ensures
        r == suffix@.is_suffix_of(s@),
{
    let v = to_chars(s);
    let p = to_chars(suffix);
    if p.len() > v.len() {
        return false;
    }
    let at: usize = v.len() - p.len();
    proof {
        assert(at + p@.len() == v@.len());
    }
    match_at(&v, &p, at)
}

/// What follows `prefix` in a text that begins with it.
pub open spec fn after_prefix(s: Seq<char>, prefix: Seq<char>) -> Option<Seq<char>> {
    if prefix.is_prefix_of(s) {
        Some(s.skip(prefix.len() as int))
    } else {
        None
    }
}

/// Strips a prefix.
pub fn strip_prefix(s: &str, prefix: &str) -> (r: Option<String>)
    ensures
        opt_text(r) == after_prefix(s@, prefix@),
{
    if starts_with(s, prefix) {
        let v = to_chars(s);
        let n: usize = prefix.unicode_len();
        proof {
            assert(s@.skip(n as int) =~= s@.subrange(n as int, s@.len() as int));
        }
        Some(slice_text(&v, n, v.len()))
    } else {
        None
    }
}

/// The first position of a character, or the length where it is absent.
pub open spec fn index_of_char(s: Seq<char>, c: char) -> nat
    decreases s.len(),
{
    if s.len() == 0 || s[0] == c {
        0
    } else {
        1 + index_of_char(s.drop_first(), c)
    }
}

/// `index_of_char` is the first position that holds the character.
pub proof fn lemma_index_of_char(s: Seq<char>, c: char)
    ensures
        index_of_char(s, c) <= s.len(),
        index_of_char(s, c) < s.len() ==> s[index_of_char(s, c) as int] == c,
        forall|i: int| 0 <= i < index_of_char(s, c) ==> s[i] != c,
    decreases s.len(),
{
    if s.len() == 0 || s[0] == c {
    } else {
        lemma_index_of_char(s.drop_first(), c);
        assert forall|i: int| 0 <= i < index_of_char(s, c) implies s[i] != c by {
            if i > 0 {
                assert(s[i] == s.drop_first()[i - 1]);
            }
        }
    }
}

/// A position that holds the character with none before it is `index_of_char`.
pub proof fn lemma_index_of_char_unique(s: Seq<char>, c: char, k: int)
    requires
        0 <= k <= s.len(),
        k < s.len() ==> s[k] == c,
        forall|i: int| 0 <= i < k ==> s[i] != c,
    ensures
        index_of_char(s, c) == k,
{
    lemma_index_of_char(s, c);
}

/// Finds the first occurrence of a character at or after `from`.
pub fn find_char(v: &Vec<char>, c: char, from: usize) -> (r: usize)
    requires
        from <= v@.len(),
    ensures
        from <= r <= v@.len(),
        r == from + index_of_char(v@.skip(from as int), c),
{
    let mut i: usize = from;
    while i < v.len() && v[i] != c
        invariant
            from <= i <= v@.len(),
            forall|j: int| from <= j < i ==> v@[j] != c,
        decreases v@.len() - i,
    {
        i = i + 1;
    }
    proof {
        lemma_index_of_char_unique(v@.skip(from as int), c, i - from);
    }
    i
}

/// The parts of a text on either side of the first occurrence of a character.
pub open spec fn cut_at(s: Seq<char>, c: char) -> Option<(Seq<char>, Seq<char>)> {
    let i = index_of_char(s, c) as int;
    if i < s.len() {
        Some((s.take(i), s.skip(i + 1)))
    } else {
        None
    }
}

/// Cuts a text at the first occurrence of a character.
pub fn split_once(s: &str, c: char) -> (r: Option<(String, String)>)
    ensures
        match r {
            Some(p) => cut_at(s@, c) == Some((p.0@, p.1@)),
            None => cut_at(s@, c) is None,
        },
{
    let v = to_chars(s);
    let i: usize = find_char(&v, c, 0);
    proof {
        assert(v@.skip(0) =~= s@);
    }
    if i < v.len() {
        let a = slice_text(&v, 0, i);
        let b = slice_text(&v, i + 1, v.len());
        proof {
            assert(a@ =~= s@.take(i as int));
            assert(b@ =~= s@.skip(i + 1));
        }
        Some((a, b))
    } else {
        None
    }
}

// ---------------------------------------------------------------------------
// Splitting and joining
// ---------------------------------------------------------------------------

/// The pieces of a text between the occurrences of a separator.
pub open spec fn split(s: Seq<char>, sep: char) -> Seq<Seq<char>>
    decreases s.len(),
{
    let i = index_of_char(s, sep) as int;
    if i < s.len() {
        seq![s.take(i)] + split(s.skip(i + 1), sep)
    } else {
        seq![s]
    }
}

/// No piece of a text holds the separator.
pub proof fn lemma_split_parts(s: Seq<char>, sep: char, k: int)
    requires
        0 <= k < split(s, sep).len(),
    ensures
        !split(s, sep)[k].contains(sep),
    decreases s.len(),
{
    let i = index_of_char(s, sep) as int;
    lemma_index_of_char(s, sep);
    if i < s.len() {
        if k == 0 {
            assert(split(s, sep)[0] == s.take(i));
        } else {
            lemma_split_parts(s.skip(i + 1), sep, k - 1);
            assert(split(s, sep)[k] == split(s.skip(i + 1), sep)[k - 1]);
        }
    }
}

/// Splits a text at every occurrence of a separator.
pub fn split_text(s: &str, sep: char) -> (r: Vec<String>)
    ensures
        texts(r@) == split(s@, sep),
{
    let v = to_chars(s);
    let mut out: Vec<String> = Vec::new();
    let mut from: usize = 0;
    proof {
        assert(v@.skip(0) =~= s@);
        assert(texts(out@) + split(v@.skip(0), sep) =~= split(s@, sep));
    }
    loop
        invariant_except_break
            from <= v@.len(),
            texts(out@) + split(v@.skip(from as int), sep) == split(s@, sep),
        ensures
            texts(out@) == split(s@, sep),
        decreases v@.len() - from,
    {
        let i: usize = find_char(&v, sep, from);
        let ghost rest = v@.skip(from as int);
        let ghost before = texts(out@);
        let piece = slice_text(&v, from, i);
        proof {
            lemma_index_of_char(rest, sep);
            assert(piece@ =~= rest.take(i - from));
        }
        out.push(piece);
        proof {
            assert(texts(out@) =~= before.push(piece@));
        }
        if i < v.len() {
            proof {
                assert(rest.skip(i - from + 1) =~= v@.skip(i + 1));
                assert(texts(out@) + split(v@.skip(i + 1), sep) =~= before + split(rest, sep));
            }
            from = i + 1;
        } else {
            proof {
                assert(rest.take(i - from) =~= rest);
                assert(texts(out@) =~= before + split(rest, sep));
            }
            break;
        }
    }
    out
}

/// A line without the carriage return that its line feed follows.
pub open spec fn drop_cr(s: Seq<char>) -> Seq<char> {
    if s.len() > 0 && s.last() == '\r' {
        s.drop_last()
    } else {
        s
    }
}

/// The lines of a text, without their line endings.
pub open spec fn lines(s: Seq<char>) -> Seq<Seq<char>>
    decreases s.len(),
{
    let i = index_of_char(s, '\n') as int;
    if s.len() == 0 {
        Seq::empty()
    } else if i < s.len() {
        seq![drop_cr(s.take(i))] + lines(s.skip(i + 1))
    } else {
        seq![s]
    }
}

/// Splits a text into its lines.
pub fn lines_of(s: &str) -> (r: Vec<String>)
    ensures
        texts(r@) == lines(s@),
{
    let v = to_chars(s);
    let mut out: Vec<String> = Vec::new();
    let mut from: usize = 0;
    proof {
        assert(v@.skip(0) =~= s@);
        assert(texts(out@) + lines(v@.skip(0)) =~= lines(s@));
    }
    while from < v.len()
        invariant
            from <= v@.len(),
            texts(out@) + lines(v@.skip(from as int)) == lines(s@),
        decreases v@.len() - from,
    {
        let i: usize = find_char(&v, '\n', from);
        let ghost rest = v@.skip(from as int);
        let ghost before = texts(out@);
        proof {
            lemma_index_of_char(rest, '\n');
        }
        if i < v.len() {
            let end: usize = if i > from && v[i - 1] == '\r' {
                i - 1
            } else {
                i
            };
            let piece = slice_text(&v, from, end);
            proof {
                assert(rest.take(i - from) =~= v@.subrange(from as int, i as int));
                assert(piece@ =~= drop_cr(rest.take(i - from)));
            }
            out.push(piece);
            proof {
                assert(texts(out@) =~= before.push(piece@));
                assert(rest.skip(i - from + 1) =~= v@.skip(i + 1));
                assert(texts(out@) + lines(v@.skip(i + 1)) =~= before + lines(rest));
            }
            from = i + 1;
        } else {
            let piece = slice_text(&v, from, i);
            proof {
                assert(piece@ =~= rest);
            }
            out.push(piece);
            proof {
                assert(texts(out@) =~= before.push(piece@));
                assert(lines(v@.skip(i as int)) =~= Seq::<Seq<char>>::empty());
                assert(texts(out@) + lines(v@.skip(i as int)) =~= before + lines(rest));
            }
            from = i;
        }
    }
    proof {
        assert(v@.skip(from as int).len() == 0);
        assert(texts(out@) + lines(v@.skip(from as int)) =~= texts(out@));
    }
    out
}

/// The texts of a sequence with `sep` between each two.
pub open spec fn join(parts: Seq<Seq<char>>, sep: Seq<char>) -> Seq<char>
    decreases parts.len(),
{
    if parts.len() == 0 {
        Seq::empty()
    } else if parts.len() == 1 {
        parts[0]
    } else {
        join(parts.drop_last(), sep) + sep + parts.last()
    }
}

/// Joins texts with a separator.
pub fn join_texts(parts: &Vec<String>, sep: &str) -> (r: String)
    ensures
        r@ == join(texts(parts@), sep@),
{
    let mut out = String::new();
    let mut i: usize = 0;
    while i < parts.len()
        invariant
            i <= parts@.len(),
            out@ == join(texts(parts@).take(i as int), sep@),
        decreases parts@.len() - i,
    {
        let ghost before = texts(parts@).take(i as int);
        let ghost after = texts(parts@).take(i + 1);
        if i > 0 {
            out.append(sep);
        }
        out.append(parts[i].as_str());
        proof {
            assert(after.drop_last() =~= before);
            if i == 0 {
                assert(out@ =~= after[0]);
            }
        }
        i = i + 1;
    }
    proof {
        assert(texts(parts@).take(i as int) =~= texts(parts@));
    }
    out
}

/// A text with every occurrence of one character replaced by another.
pub open spec fn replace_char(s: Seq<char>, from: char, to: char) -> Seq<char> {
    s.map_values(
        |c: char|
            if c == from {
                to
            } else {
                c
            },
    )
}

/// Replaces every occurrence of a character.
pub fn replace_char_text(s: &str, from: char, to: char) -> (r: String)
    ensures
        r@ == replace_char(s@, from, to),
{
    let v = to_chars(s);
    let mut out = String::new();
    let mut i: usize = 0;
    while i < v.len()
        invariant
            v@ == s@,
            i <= v@.len(),
            out@ == replace_char(s@.take(i as int), from, to),
        decreases v@.len() - i,
    {
        let c = if v[i] == from {
            to
        } else {
            v[i]
        };
        out.push(c);
        proof {
            assert(replace_char(s@.take(i as int), from, to).push(c) =~= replace_char(
                s@.take(i + 1),
                from,
                to,
            ));
        }
        i = i + 1;
    }
    assert(s@.take(i as int) =~= s@);
    out
}

// ---------------------------------------------------------------------------
// Letter case
// ---------------------------------------------------------------------------

/// What `str::to_lowercase` makes of a text.
pub uninterp spec fn lowercase(s: Seq<char>) -> Seq<char>;

/// A text of ASCII characters alone.
pub open spec fn all_ascii(s: Seq<char>) -> bool {
    forall|i: int| 0 <= i < s.len() ==> (#[trigger] s[i]) as u32 <= 0x7f
}

/// The lower case of an ASCII character.
pub open spec fn ascii_lower(c: char) -> char {
    if 'A' <= c <= 'Z' {
        (c as u32 + 32) as char
    } else {
        c
    }
}

/// Calls `str::to_lowercase`, which maps every character to its Unicode lower
/// case. The result depends on the text alone. For a text of ASCII characters it
/// has the letters `a` to `z` for `A` to `Z`; what it is for other texts is not
/// stated.
#[verifier::external_body]
fn to_lowercase(s: &str) -> (r: String)
    ensures
        r@ == lowercase(s@),
        all_ascii(s@) ==> r@ == s@.map_values(|c: char| ascii_lower(c)),
{
    s.to_lowercase()
}

/// A text in lower case.
pub open spec fn lower(s: Seq<char>) -> Seq<char> {
    if all_ascii(s) {
        s.map_values(|c: char| ascii_lower(c))
    } else {
        lowercase(s)
    }
}

/// Writes a text in lower case.
pub fn lower_text(s: &str) -> (r: String)
    ensures
        r@ == lower(s@),
{
    to_lowercase(s)
}

// ---------------------------------------------------------------------------
// Decimal numbers
// ---------------------------------------------------------------------------

/// The character of a decimal digit.
pub open spec fn digit(d: nat) -> char {
    ('0' as u32 + d) as char
}

/// A number in decimal digits, without leading zeros.
pub open spec fn decimal(n: nat) -> Seq<char>
    decreases n,
{
    if n < 10 {
        seq![digit(n)]
    } else {
        decimal(n / 10).push(digit(n % 10))
    }
}

/// An integer in decimal digits, with a minus sign where it is negative.
pub open spec fn decimal_int(n: int) -> Seq<char> {
    if n < 0 {
        seq!['-'] + decimal((-n) as nat)
    } else {
        decimal(n as nat)
    }
}

fn digit_char(d: u64) -> (r: char)
    requires
        d < 10,
    ensures
        r == digit(d as nat),
{
    if d == 0 {
        '0'
    } else if d == 1 {
        '1'
    } else if d == 2 {
        '2'
    } else if d == 3 {
        '3'
    } else if d == 4 {
        '4'
    } else if d == 5 {
        '5'
    } else if d == 6 {
        '6'
    } else if d == 7 {
        '7'
    } else if d == 8 {
        '8'
    } else {
        '9'
    }
}

/// Writes a number in decimal.
pub fn u64_text(n: u64) -> (r: String)
    ensures
        r@ == decimal(n as nat),
    decreases n,
{
    if n < 10 {
        let mut out = String::new();
        out.push(digit_char(n));
        assert(out@ =~= seq![digit(n as nat)]);
        out
    } else {
        let mut out = u64_text(n / 10);
        out.push(digit_char(n % 10));
        out
    }
}

/// Writes an integer in decimal.
pub fn i64_text(n: i64) -> (r: String)
    ensures
        r@ == decimal_int(n as int),
{
    if n < 0 {
        let m: u64 = if n == i64::MIN {
            9223372036854775808
        } else {
            (-n) as u64
        };
        let mut out = String::new();
        out.push('-');
        let digits = u64_text(m);
        out.append(digits.as_str());
        assert(out@ =~= seq!['-'] + decimal((-n) as nat));
        out
    } else {
        u64_text(n as u64)
    }
}

/// A decimal digit.
pub open spec fn is_digit(c: char) -> bool {
    '0' <= c <= '9'
}

/// Every character is a decimal digit.
pub open spec fn all_digits(s: Seq<char>) -> bool {
    forall|i: int| 0 <= i < s.len() ==> is_digit(#[trigger] s[i])
}

/// The number that a sequence of digits writes.
pub open spec fn digits_value(s: Seq<char>) -> nat
    decreases s.len(),
{
    if s.len() == 0 {
        0
    } else {
        10 * digits_value(s.drop_last()) + (s.last() as u32 - '0' as u32) as nat
    }
}

/// The digits of a number text: what follows an optional plus sign.
pub open spec fn unsigned_digits(s: Seq<char>) -> Seq<char> {
    if s.len() > 0 && s[0] == '+' {
        s.drop_first()
    } else {
        s
    }
}

/// The number that a text writes, where it writes one of at most `max`: an
/// optional plus sign and one or more digits.
pub open spec fn parsed_unsigned(s: Seq<char>, max: nat) -> Option<nat> {
    let d = unsigned_digits(s);
    if d.len() > 0 && all_digits(d) && digits_value(d) <= max {
        Some(digits_value(d))
    } else {
        None
    }
}

/// More digits never make the number smaller.
proof fn lemma_digits_value_grows(s: Seq<char>, k: int)
    requires
        all_digits(s),
        0 <= k <= s.len(),
    ensures
        digits_value(s.take(k)) <= digits_value(s),
    decreases s.len() - k,
{
    if k == s.len() {
        assert(s.take(k) =~= s);
    } else {
        lemma_digits_value_grows(s, k + 1);
        assert(s.take(k + 1).drop_last() =~= s.take(k));
        assert(s.take(k + 1).last() == s[k]);
        assert(is_digit(s[k]));
    }
}

/// Reads a number of at most `max`.
pub fn parse_unsigned(s: &str, max: u64) -> (r: Option<u64>)
    ensures
        match r {
            Some(n) => parsed_unsigned(s@, max as nat) == Some(n as nat),
            None => parsed_unsigned(s@, max as nat) is None,
        },
{
    let v = to_chars(s);
    let start: usize = if v.len() > 0 && v[0] == '+' {
        1
    } else {
        0
    };
    let ghost d = unsigned_digits(s@);
    proof {
        assert(d =~= v@.skip(start as int));
    }
    if v.len() == start {
        return None;
    }
    let mut i: usize = start;
    let mut total: u64 = 0;
    while i < v.len()
        invariant
            v@ == s@,
            start <= i <= v@.len(),
            d == unsigned_digits(s@),
            d == v@.skip(start as int),
            d.len() > 0,
            all_digits(d.take(i - start)),
            total == digits_value(d.take(i - start)),
            total <= max,
        decreases v@.len() - i,
    {
        let c = v[i];
        proof {
            assert(d[i - start] == c);
            assert(d.take(i - start + 1).drop_last() =~= d.take(i - start));
            assert(d.take(i - start + 1).last() == c);
        }
        if !('0' <= c && c <= '9') {
            return None;
        }
        let n: u64 = (c as u32 - '0' as u32) as u64;
        let next: u128 = 10u128 * (total as u128) + (n as u128);
        proof {
            assert(all_digits(d.take(i - start + 1)));
            assert(next == digits_value(d.take(i - start + 1)));
        }
        if next > max as u128 {
            proof {
                if all_digits(d) {
                    lemma_digits_value_grows(d, i - start + 1);
                }
            }
            return None;
        }
        total = next as u64;
        i = i + 1;
    }
    proof {
        assert(d.take(i - start) =~= d);
    }
    Some(total)
}

/// The integer that a text writes, where it writes one that an `i64` holds: an
/// optional sign and one or more digits.
pub open spec fn parsed_i64(s: Seq<char>) -> Option<int> {
    if s.len() > 0 && s[0] == '-' {
        let d = s.drop_first();
        if d.len() > 0 && all_digits(d) && digits_value(d) <= 0x8000_0000_0000_0000 {
            Some(-(digits_value(d) as int))
        } else {
            None
        }
    } else {
        match parsed_unsigned(s, i64::MAX as nat) {
            Some(n) => Some(n as int),
            None => None,
        }
    }
}

/// Reads an integer that an `i64` holds.
pub fn parse_i64(s: &str) -> (r: Option<i64>)
    ensures
        match r {
            Some(n) => parsed_i64(s@) == Some(n as int),
            None => parsed_i64(s@) is None,
        },
{
    let v = to_chars(s);
    if v.len() > 0 && v[0] == '-' {
        let rest = slice_text(&v, 1, v.len());
        proof {
            assert(rest@ =~= s@.drop_first());
            if rest@.len() > 0 && rest@[0] == '+' {
                assert(!is_digit(rest@[0]));
            }
        }
        if v.len() > 1 && v[1] == '+' {
            return None;
        }
        match parse_unsigned(rest.as_str(), 0x8000_0000_0000_0000) {
            Some(n) => {
                if n == 0x8000_0000_0000_0000 {
                    Some(i64::MIN)
                } else {
                    Some(-(n as i64))
                }
            },
            None => None,
        }
    } else {
        match parse_unsigned(s, i64::MAX as u64) {
            Some(n) => Some(n as i64),
            None => None,
        }
    }
}

/// The digits of `decimal` are digits.
pub proof fn lemma_decimal_digits(n: nat)
    ensures
        all_digits(decimal(n)),
        decimal(n).len() > 0,
        digits_value(decimal(n)) == n,
    decreases n,
{
    if n < 10 {
        assert(decimal(n).drop_last() =~= Seq::<char>::empty());
        assert(digits_value(Seq::<char>::empty()) == 0);
    } else {
        lemma_decimal_digits(n / 10);
        assert(decimal(n).drop_last() =~= decimal(n / 10));
        assert(decimal(n).last() == digit(n % 10));
    }
}

/// What `u64_text` writes, `parse_unsigned` reads back.
pub proof fn law_decimal_round_trip(n: nat, max: nat)
    requires
        n <= max,
    ensures
        parsed_unsigned(decimal(n), max) == Some(n),
{
    lemma_decimal_digits(n);
    assert(is_digit(decimal(n)[0]));
    assert(unsigned_digits(decimal(n)) == decimal(n));
}

// ---------------------------------------------------------------------------
// Searching and stripping
// ---------------------------------------------------------------------------

/// The first position from a position on at which a text stands in another: none
/// where it does not stand there.
pub open spec fn first_at(hay: Seq<char>, needle: Seq<char>, from: nat) -> Option<nat>
    decreases hay.len() + 1 - from,
{
    if from > hay.len() {
        None
    } else if matches_at(hay, needle, from as int) {
        Some(from)
    } else {
        first_at(hay, needle, from + 1)
    }
}

/// A search finds the first position.
pub proof fn lemma_first_at(hay: Seq<char>, needle: Seq<char>, from: nat, found: Option<nat>)
    requires
        match found {
            Some(i) => from <= i && matches_at(hay, needle, i as int) && forall|j: int|
                from <= j < i ==> !matches_at(hay, needle, j),
            None => forall|j: int| from <= j ==> !matches_at(hay, needle, j),
        },
    ensures
        first_at(hay, needle, from) == found,
    decreases hay.len() + 1 - from,
{
    if from <= hay.len() && !matches_at(hay, needle, from as int) {
        lemma_first_at(hay, needle, from + 1, found);
    }
}

/// How often a text stands in another from a position on, without overlaps.
pub open spec fn count_from(hay: Seq<char>, needle: Seq<char>, from: nat) -> nat
    decreases hay.len() + 1 - from,
{
    match first_at(hay, needle, from) {
        Some(i) => if from <= i && i + needle.len() <= hay.len() && needle.len() > 0 {
            1 + count_from(hay, needle, i + needle.len())
        } else {
            0
        },
        None => 0,
    }
}

/// Counts how often a text stands in another, without overlaps.
pub fn count_text(hay: &str, needle: &str) -> (r: usize)
    requires
        needle@.len() > 0,
    ensures
        r == count_from(hay@, needle@, 0),
{
    let h = to_chars(hay);
    let n = to_chars(needle);
    let len: usize = h.len();
    let m: usize = n.len();
    let mut count: usize = 0;
    let mut from: usize = 0;
    while from <= len
        invariant
            len == h@.len(),
            m == n@.len(),
            m > 0,
            h@ == hay@,
            n@ == needle@,
            count <= from,
            from <= len,
            count + count_from(hay@, needle@, from as nat) == count_from(hay@, needle@, 0),
        decreases len + 1 - from,
    {
        match find_from(&h, &n, from) {
            Some(i) => {
                proof {
                    lemma_first_at(hay@, needle@, from as nat, Some(i as nat));
                }
                count = count + 1;
                from = i + m;
            },
            None => {
                proof {
                    lemma_first_at(hay@, needle@, from as nat, None);
                }
                return count;
            },
        }
    }
    count
}

/// A text without all repetitions of another at its start.
pub open spec fn strip_start(s: Seq<char>, p: Seq<char>) -> Seq<char>
    decreases s.len(),
{
    if p.len() > 0 && p.is_prefix_of(s) {
        strip_start(s.skip(p.len() as int), p)
    } else {
        s
    }
}

/// A text without all repetitions of another at its end.
pub open spec fn strip_end(s: Seq<char>, p: Seq<char>) -> Seq<char>
    decreases s.len(),
{
    if p.len() > 0 && p.is_suffix_of(s) {
        strip_end(s.take(s.len() - p.len()), p)
    } else {
        s
    }
}

/// Takes all repetitions of a text off the start of another.
pub fn strip_all_start(s: &str, p: &str) -> (r: String)
    requires
        p@.len() > 0,
    ensures
        r@ == strip_start(s@, p@),
{
    let mut out = s.to_owned();
    loop
        invariant
            p@.len() > 0,
            strip_start(s@, p@) == strip_start(out@, p@),
        ensures
            out@ == strip_start(s@, p@),
        decreases out@.len(),
    {
        match strip_prefix(out.as_str(), p) {
            Some(rest) => {
                out = rest;
            },
            None => {
                break;
            },
        }
    }
    out
}

/// Takes all repetitions of a text off the end of another.
pub fn strip_all_end(s: &str, p: &str) -> (r: String)
    requires
        p@.len() > 0,
    ensures
        r@ == strip_end(s@, p@),
{
    let mut out = s.to_owned();
    let m: usize = p.unicode_len();
    while ends_with(out.as_str(), p)
        invariant
            p@.len() > 0,
            m == p@.len(),
            strip_end(s@, p@) == strip_end(out@, p@),
        decreases out@.len(),
    {
        let v = to_chars(out.as_str());
        let n: usize = v.len();
        let next = slice_text(&v, 0, n - m);
        assert(next@ =~= out@.take(out@.len() - p@.len()));
        out = next;
    }
    out
}

/// The first line of a text, or another text where it has none.
pub open spec fn first_line_or(s: Seq<char>, other: Seq<char>) -> Seq<char> {
    if lines(s).len() > 0 {
        lines(s)[0]
    } else {
        other
    }
}

/// The first line of a text, or another text where it has none.
pub fn first_line(s: &str, other: &str) -> (r: String)
    ensures
        r@ == first_line_or(s@, other@),
{
    let all = lines_of(s);
    assert(texts(all@).len() == all@.len());
    if all.len() > 0 {
        all[0].clone()
    } else {
        other.to_owned()
    }
}

// ---------------------------------------------------------------------------
// Words
// ---------------------------------------------------------------------------

/// The number of characters before the first white space.
pub open spec fn word_len(s: Seq<char>) -> nat
    decreases s.len(),
{
    if s.len() == 0 || is_space(s[0]) {
        0
    } else {
        1 + word_len(s.drop_first())
    }
}

/// The number of characters before the first white space is at most all.
pub proof fn lemma_word_len(s: Seq<char>)
    ensures
        word_len(s) <= s.len(),
        s.len() > 0 && !is_space(s[0]) ==> word_len(s) > 0,
    decreases s.len(),
{
    if s.len() > 0 && !is_space(s[0]) {
        lemma_word_len(s.drop_first());
    }
}

/// Trimming a text does not make it longer, and leaves no white space in front.
pub proof fn lemma_trim_start(s: Seq<char>)
    ensures
        trim_start(s).len() <= s.len(),
        trim_start(s).len() > 0 ==> !is_space(trim_start(s)[0]),
    decreases s.len(),
{
    if s.len() > 0 && is_space(s[0]) {
        lemma_trim_start(s.drop_first());
    }
}

/// The words of a text: what stands between its white space.
pub open spec fn words(s: Seq<char>) -> Seq<Seq<char>>
    decreases s.len(),
    via words_decreases
{
    let t = trim_start(s);
    if t.len() == 0 {
        Seq::empty()
    } else {
        seq![t.take(word_len(t) as int)] + words(t.skip(word_len(t) as int))
    }
}

#[via_fn]
proof fn words_decreases(s: Seq<char>) {
    lemma_trim_start(s);
    lemma_word_len(trim_start(s));
}

/// Splits a text into its words.
pub fn split_words(s: &str) -> (r: Vec<String>)
    ensures
        texts(r@) == words(s@),
{
    let v = to_chars(s);
    let n: usize = v.len();
    let mut out: Vec<String> = Vec::new();
    let mut i: usize = 0;
    assert(v@.skip(0) =~= s@);
    assert(texts(out@) + words(v@.skip(0)) =~= words(s@));
    while i < n
        invariant
            n == v@.len(),
            i <= n,
            texts(out@) + words(v@.skip(i as int)) == words(s@),
        decreases n - i,
    {
        let a: usize = skip_space(&v, i);
        let ghost t = v@.skip(a as int);
        proof {
            lemma_trim_start(v@.skip(i as int));
            lemma_word_len(t);
        }
        let mut b: usize = a;
        assert(v@.skip(a as int) =~= t);
        while b < n && !is_space_char(v[b])
            invariant
                n == v@.len(),
                a <= b <= n,
                t == v@.skip(a as int),
                word_len(t) == (b - a) + word_len(v@.skip(b as int)),
            decreases n - b,
        {
            assert(v@.skip(b as int)[0] == v@[b as int]);
            assert(v@.skip(b as int).drop_first() =~= v@.skip(b + 1));
            b = b + 1;
        }
        proof {
            if b < n {
                assert(v@.skip(b as int)[0] == v@[b as int]);
            }
        }
        if a < n {
            let w = slice_text(&v, a, b);
            let ghost before = out@;
            out.push(w);
            proof {
                assert(t.take(word_len(t) as int) =~= v@.subrange(a as int, b as int));
                assert(t.skip(word_len(t) as int) =~= v@.skip(b as int));
                assert(texts(out@) =~= texts(before).push(w@));
                assert(texts(out@) + words(v@.skip(b as int)) =~= texts(before) + (seq![
                    t.take(word_len(t) as int),
                ] + words(t.skip(word_len(t) as int))));
            }
        } else {
            assert(texts(out@) + words(v@.skip(b as int)) =~= texts(out@) + words(
                v@.skip(i as int),
            ));
        }
        i = b;
    }
    assert(words(v@.skip(n as int)) =~= Seq::<Seq<char>>::empty());
    assert(texts(out@) + Seq::<Seq<char>>::empty() =~= texts(out@));
    out
}

// ---------------------------------------------------------------------------
// Order
// ---------------------------------------------------------------------------

/// One text comes before another in the order of strings: at the first place where
/// they differ it has the smaller character, or it ends there.
pub open spec fn precedes(a: Seq<char>, b: Seq<char>) -> bool
    decreases a.len(),
{
    if b.len() == 0 {
        false
    } else if a.len() == 0 {
        true
    } else if a[0] != b[0] {
        (a[0] as int) < (b[0] as int)
    } else {
        precedes(a.drop_first(), b.drop_first())
    }
}

/// Tells whether a text comes before another.
pub fn text_precedes(a: &str, b: &str) -> (r: bool)
    ensures
        r == precedes(a@, b@),
{
    let x = to_chars(a);
    let y = to_chars(b);
    let n: usize = x.len();
    let m: usize = y.len();
    let mut i: usize = 0;
    assert(x@.skip(0) =~= a@ && y@.skip(0) =~= b@);
    while i < n && i < m
        invariant
            n == x@.len(),
            m == y@.len(),
            i <= n,
            i <= m,
            precedes(a@, b@) == precedes(x@.skip(i as int), y@.skip(i as int)),
        decreases n - i,
    {
        assert(x@.skip(i as int).drop_first() =~= x@.skip(i + 1));
        assert(y@.skip(i as int).drop_first() =~= y@.skip(i + 1));
        if x[i] != y[i] {
            return x[i] < y[i];
        }
        i = i + 1;
    }
    i < m
}

/// The order of strings is total.
pub proof fn lemma_precedes_total(a: Seq<char>, b: Seq<char>)
    ensures
        a == b || precedes(a, b) || precedes(b, a),
    decreases a.len(),
{
    if a.len() == 0 {
        assert(b.len() == 0 ==> a =~= b);
    } else if b.len() > 0 {
        if a[0] == b[0] {
            lemma_precedes_total(a.drop_first(), b.drop_first());
            if a.drop_first() == b.drop_first() {
                assert(a =~= seq![a[0]] + a.drop_first());
                assert(b =~= seq![b[0]] + b.drop_first());
            }
        } else {
            assert(a[0] as int != b[0] as int);
        }
    }
}

/// No text comes before itself.
pub proof fn lemma_precedes_irreflexive(a: Seq<char>)
    ensures
        !precedes(a, a),
    decreases a.len(),
{
    if a.len() > 0 {
        lemma_precedes_irreflexive(a.drop_first());
    }
}

/// The order of strings is transitive.
pub proof fn lemma_precedes_transitive(a: Seq<char>, b: Seq<char>, c: Seq<char>)
    requires
        precedes(a, b),
        precedes(b, c),
    ensures
        precedes(a, c),
    decreases a.len(),
{
    if a.len() > 0 && a[0] == b[0] && b[0] == c[0] {
        lemma_precedes_transitive(a.drop_first(), b.drop_first(), c.drop_first());
    }
}

// ---------------------------------------------------------------------------
// What the operations do
// ---------------------------------------------------------------------------
/// White space is the tab, the line feed, the vertical tab, the form feed, the
/// carriage return, the space, and the spaces and separators of Unicode; no letter
/// or digit is.
pub proof fn law_white_space(c: char)
    ensures
        c as u32 <= 0x7f ==> (is_space(c) <==> (9 <= c as u32 <= 13 || c as u32 == 32)),
        0x7f < c as u32 ==> (is_space(c) <==> (c as u32 == 0x85 || c as u32 == 0xa0 || c as u32
            == 0x1680 || 0x2000 <= c as u32 <= 0x200a || c as u32 == 0x2028 || c as u32 == 0x2029
            || c as u32 == 0x202f || c as u32 == 0x205f || c as u32 == 0x3000)),
{
}

proof fn lemma_trim_start_place(s: Seq<char>) -> (a: int)
    ensures
        0 <= a <= s.len(),
        trim_start(s) == s.skip(a),
        forall|i: int| 0 <= i < a ==> is_space(#[trigger] s[i]),
        a < s.len() ==> !is_space(s[a]),
    decreases s.len(),
{
    if s.len() > 0 && is_space(s[0]) {
        let t = s.drop_first();
        let b = lemma_trim_start_place(t);
        assert(s.skip(b + 1) == t.skip(b));
        assert forall|i: int| 0 <= i < b + 1 implies is_space(#[trigger] s[i]) by {
            if i > 0 {
                assert(s[i] == t[i - 1]);
            }
        }
        if b < t.len() {
            assert(t[b] == s[b + 1]);
        }
        b + 1
    } else {
        assert(s.skip(0) == s);
        0
    }
}

proof fn lemma_trim_end_place(s: Seq<char>) -> (b: int)
    ensures
        0 <= b <= s.len(),
        trim_end(s) == s.take(b),
        forall|i: int| b <= i < s.len() ==> is_space(#[trigger] s[i]),
        b > 0 ==> !is_space(s[b - 1]),
    decreases s.len(),
{
    if s.len() > 0 && is_space(s.last()) {
        let t = s.drop_last();
        let b = lemma_trim_end_place(t);
        assert(s.take(b) == t.take(b));
        assert forall|i: int| b <= i < s.len() implies is_space(#[trigger] s[i]) by {
            if i < t.len() {
                assert(s[i] == t[i]);
            }
        }
        if b > 0 {
            assert(t[b - 1] == s[b - 1]);
        }
        b
    } else {
        assert(s.take(s.len() as int) == s);
        s.len() as int
    }
}

/// Trimming takes off nothing but white space, and leaves none at either end: a text
/// between white space that neither starts nor ends with any is what is left.
pub proof fn law_trimmed_text_is_what_stands_between(a: Seq<char>, s: Seq<char>, b: Seq<char>)
    requires
        forall|i: int| 0 <= i < a.len() ==> is_space(#[trigger] a[i]),
        forall|i: int| 0 <= i < b.len() ==> is_space(#[trigger] b[i]),
        s.len() > 0 ==> !is_space(s[0]) && !is_space(s.last()),
    ensures
        trim(a + s + b) == s,
{
    let t = a + s + b;
    let p = lemma_trim_start_place(t);
    let u = trim_start(t);
    let q = lemma_trim_end_place(u);
    assert forall|i: int| 0 <= i < a.len() implies is_space(#[trigger] t[i]) by {
        assert(t[i] == a[i]);
    }
    assert forall|i: int| a.len() + s.len() <= i < t.len() implies is_space(#[trigger] t[i]) by {
        assert(t[i] == b[i - a.len() - s.len()]);
    }
    if s.len() > 0 {
        assert(t[a.len() as int] == s[0]);
        assert(p == a.len());
        assert(u == s + b);
        assert(u[s.len() - 1] == s.last());
        assert forall|i: int| s.len() <= i < u.len() implies is_space(#[trigger] u[i]) by {
            assert(u[i] == b[i - s.len()]);
        }
        assert(q == s.len());
        assert(u.take(q) == s);
    } else {
        if p < t.len() {
            assert(is_space(t[p]));
        }
        assert(u.len() == 0);
        assert(u.take(q) == s);
    }
}

proof fn lemma_join_first(a: Seq<char>, rest: Seq<Seq<char>>, sep: Seq<char>)
    requires
        rest.len() > 0,
    ensures
        join(seq![a] + rest, sep) == a + sep + join(rest, sep),
    decreases rest.len(),
{
    let all = seq![a] + rest;
    assert(all.last() == rest.last());
    assert(all.drop_last() == seq![a] + rest.drop_last());
    if rest.len() == 1 {
        assert(all.drop_last() == seq![a]);
        assert(join(all.drop_last(), sep) == a);
        assert(join(rest, sep) == rest[0]);
        assert(join(all, sep) == a + sep + rest.last());
    } else {
        lemma_join_first(a, rest.drop_last(), sep);
        assert(join(all, sep) == a + sep + join(rest.drop_last(), sep) + sep + rest.last());
    }
}

/// Joining the pieces of a text with their separator gives the text back, and no piece
/// holds the separator.
pub proof fn law_split_is_undone_by_join(s: Seq<char>, sep: char)
    ensures
        join(split(s, sep), seq![sep]) == s,
        split(s, sep).len() > 0,
        forall|k: int| 0 <= k < split(s, sep).len() ==> !(#[trigger] split(s, sep)[k]).contains(sep),
    decreases s.len(),
{
    lemma_index_of_char(s, sep);
    let i = index_of_char(s, sep) as int;
    if i < s.len() {
        law_split_is_undone_by_join(s.skip(i + 1), sep);
        lemma_join_first(s.take(i), split(s.skip(i + 1), sep), seq![sep]);
        assert(s == s.take(i) + seq![sep] + s.skip(i + 1));
    }
    assert forall|k: int| 0 <= k < split(s, sep).len() implies !(#[trigger] split(
        s,
        sep,
    )[k]).contains(sep) by {
        lemma_split_parts(s, sep, k);
    }
}

/// One more text is joined behind a separator, and a single text needs none.
pub proof fn law_texts_are_joined_in_order(parts: Seq<Seq<char>>, s: Seq<char>, sep: Seq<char>)
    ensures
        join(seq![s], sep) == s,
        parts.len() > 0 ==> join(parts.push(s), sep) == join(parts, sep) + sep + s,
        join(Seq::empty(), sep).len() == 0,
{
    assert(parts.push(s).drop_last() == parts);
}

/// A text is cut in front of and behind the first occurrence of a character: both
/// sides are found, and a text without the character is not cut.
pub proof fn law_cut_at_the_first(a: Seq<char>, c: char, b: Seq<char>)
    requires
        !a.contains(c),
    ensures
        cut_at(a + seq![c] + b, c) == Some((a, b)),
        cut_at(a, c) is None,
{
    let s = a + seq![c] + b;
    assert forall|i: int| 0 <= i < a.len() implies a[i] != c by {
        if a[i] == c {
            assert(a.contains(c));
        }
    }
    assert(s[a.len() as int] == c);
    lemma_index_of_char_unique(s, c, a.len() as int);
    lemma_index_of_char_unique(a, c, a.len() as int);
    assert(s.take(a.len() as int) == a);
    assert(s.skip(a.len() as int + 1) == b);
}

/// A line ends in front of its line feed, and loses the carriage return in front of it;
/// what follows the last line feed is a line where it is not empty.
pub proof fn law_lines_end_at_line_feeds(a: Seq<char>, b: Seq<char>)
    requires
        !a.contains('\n'),
    ensures
        lines(a + seq!['\r', '\n'] + b) == seq![a] + lines(b),
        a.len() == 0 || a.last() != '\r' ==> lines(a + seq!['\n'] + b) == seq![a] + lines(b),
        a.len() > 0 ==> lines(a) == seq![a],
        lines(Seq::empty()).len() == 0,
{
    assert forall|i: int| 0 <= i < a.len() implies a[i] != '\n' by {
        if a[i] == '\n' {
            assert(a.contains('\n'));
        }
    }
    let s = a + seq!['\n'] + b;
    let t = a + seq!['\r', '\n'] + b;
    let n = a.len() as int;
    assert(s[n] == '\n');
    lemma_index_of_char_unique(s, '\n', n);
    assert(s.take(n) == a);
    assert(s.skip(n + 1) == b);
    assert(t[n] == '\r');
    assert(t[n + 1] == '\n');
    lemma_index_of_char_unique(t, '\n', n + 1);
    assert(t.take(n + 1) == a.push('\r'));
    assert(a.push('\r').drop_last() == a);
    assert(t.skip(n + 2) == b);
    lemma_index_of_char_unique(a, '\n', n);
}

/// The first line of a text is what stands in front of its first line feed; a text
/// without any is its own first line, and the empty text has the other one.
pub proof fn law_first_line_is_shown(a: Seq<char>, b: Seq<char>, other: Seq<char>)
    requires
        !a.contains('\n'),
    ensures
        a.len() == 0 || a.last() != '\r' ==> first_line_or(a + seq!['\n'] + b, other) == a,
        a.len() > 0 ==> first_line_or(a, other) == a,
        first_line_or(Seq::empty(), other) == other,
{
    law_lines_end_at_line_feeds(a, b);
}

proof fn lemma_word_stops(s: Seq<char>, rest: Seq<char>)
    requires
        forall|i: int| 0 <= i < s.len() ==> !is_space(#[trigger] s[i]),
        rest.len() > 0 ==> is_space(rest[0]),
    ensures
        word_len(s + rest) == s.len(),
    decreases s.len(),
{
    let t = s + rest;
    if s.len() > 0 {
        assert(t[0] == s[0]);
        assert(t.drop_first() == s.drop_first() + rest);
        assert forall|i: int| 0 <= i < s.drop_first().len() implies !is_space(
            #[trigger] s.drop_first()[i],
        ) by {
            assert(s.drop_first()[i] == s[i + 1]);
        }
        lemma_word_stops(s.drop_first(), rest);
    } else if rest.len() > 0 {
        assert(t[0] == rest[0]);
    }
}

/// A word is what stands between white space: white space in front of a text or behind
/// it adds no word, and a text without any is one word, in front of the words that
/// follow white space.
pub proof fn law_words_stand_between_white_space(w: Seq<char>, c: char, rest: Seq<char>)
    requires
        w.len() > 0,
        forall|i: int| 0 <= i < w.len() ==> !is_space(#[trigger] w[i]),
        is_space(c),
    ensures
        words(Seq::empty()).len() == 0,
        words(seq![c] + rest) == words(rest),
        words(w) == seq![w],
        words(w + seq![c] + rest) == seq![w] + words(seq![c] + rest),
{
    let none = Seq::<char>::empty();
    assert(trim_start(none) == none);
    let s = seq![c] + rest;
    assert(s[0] == c);
    assert(s.drop_first() == rest);
    assert(trim_start(s) == trim_start(rest));
    lemma_word_stops(w, none);
    assert(w + none == w);
    assert(w.take(w.len() as int) == w);
    assert(w.skip(w.len() as int) == none);
    assert(!is_space(w[0]));
    assert(trim_start(w) == w);
    assert(words(none) =~= Seq::empty());
    lemma_word_stops(w, s);
    let t = w + seq![c] + rest;
    assert(t == w + s);
    assert(t[0] == w[0]);
    assert(trim_start(t) == t);
    assert(t.take(w.len() as int) == w);
    assert(t.skip(w.len() as int) == s);
}

/// Every occurrence of the one character is replaced by the other, and every other
/// character stays where it is.
pub proof fn law_only_that_character_is_replaced(s: Seq<char>, from: char, to: char, i: int)
    requires
        0 <= i < s.len(),
    ensures
        replace_char(s, from, to).len() == s.len(),
        s[i] == from ==> replace_char(s, from, to)[i] == to,
        s[i] != from ==> replace_char(s, from, to)[i] == s[i],
{
}

/// The letters `A` to `Z` are written `a` to `z`, and every other ASCII character stays.
pub proof fn law_lower_case_of_ascii(s: Seq<char>, i: int)
    requires
        0 <= i < s.len(),
        forall|k: int| 0 <= k < s.len() ==> (#[trigger] s[k]) as u32 <= 0x7f,
    ensures
        lower(s).len() == s.len(),
        65 <= s[i] as u32 <= 90 ==> lower(s)[i] as u32 == s[i] as u32 + 32,
        !(65 <= s[i] as u32 <= 90) ==> lower(s)[i] == s[i],
{
}

/// A number is written with the digits 0 to 9, the last of them for what is left of it
/// after its tens.
pub proof fn law_decimal_digits(tens: nat, d: nat)
    requires
        d < 10,
    ensures
        decimal(d) == seq!["0123456789"@[d as int]],
        tens > 0 ==> decimal(10 * tens + d) == decimal(tens).push("0123456789"@[d as int]),
{
    reveal_strlit("0123456789");
    assert((10 * tens + d) / 10 == tens);
    assert((10 * tens + d) % 10 == d);
}

/// A minus sign stands in front of a negative number alone, and an integer that is
/// written is read back.
pub proof fn law_integer_round_trip(n: int)
    requires
        i64::MIN <= n <= i64::MAX,
    ensures
        parsed_i64(decimal_int(n)) == Some(n),
        n < 0 ==> decimal_int(n) == seq!['-'] + decimal_int(-n),
        n >= 0 ==> parsed_i64(seq!['+'] + decimal_int(n)) == Some(n),
{
    if n < 0 {
        let m = (-n) as nat;
        lemma_decimal_digits(m);
        let s = decimal_int(n);
        assert(s.drop_first() == decimal(m));
    } else {
        let m = n as nat;
        lemma_decimal_digits(m);
        let s = decimal(m);
        assert(is_digit(s[0]));
        law_decimal_round_trip(m, i64::MAX as nat);
        let t = seq!['+'] + s;
        assert(t[0] == '+');
        assert(t.drop_first() == s);
    }
}

/// A text that holds anything but digits behind its sign writes no number.
pub proof fn law_only_digits_write_a_number(s: Seq<char>, max: nat, i: int)
    requires
        0 <= i < s.len(),
        !('0' <= s[i] <= '9'),
        i > 0 || (s[0] != '+' && s[0] != '-'),
    ensures
        parsed_unsigned(s, max) is None,
        parsed_i64(s) is None,
{
    let d = s.drop_first();
    if i > 0 {
        assert(d[i - 1] == s[i]);
        assert(!all_digits(d)) by {
            assert(!is_digit(d[i - 1]));
        }
    }
    assert(!all_digits(s)) by {
        assert(!is_digit(s[i]));
    }
}

/// Repetitions of a text are taken off the start of another, one by one, and nothing
/// else is.
pub proof fn law_repetitions_are_stripped_in_front(s: Seq<char>, p: Seq<char>)
    requires
        p.len() > 0,
    ensures
        strip_start(p + s, p) == strip_start(s, p),
        !p.is_prefix_of(s) ==> strip_start(s, p) == s,
        !p.is_prefix_of(strip_start(s, p)),
    decreases s.len(),
{
    assert(p.is_prefix_of(p + s));
    assert((p + s).skip(p.len() as int) == s);
    if p.is_prefix_of(s) {
        law_repetitions_are_stripped_in_front(s.skip(p.len() as int), p);
    }
}

/// Repetitions of a text are taken off the end of another, one by one, and nothing
/// else is.
pub proof fn law_repetitions_are_stripped_behind(s: Seq<char>, p: Seq<char>)
    requires
        p.len() > 0,
    ensures
        strip_end(s + p, p) == strip_end(s, p),
        !p.is_suffix_of(s) ==> strip_end(s, p) == s,
        !p.is_suffix_of(strip_end(s, p)),
    decreases s.len(),
{
    assert(p.is_suffix_of(s + p));
    assert((s + p).take((s + p).len() - p.len()) == s);
    if p.is_suffix_of(s) {
        law_repetitions_are_stripped_behind(s.take(s.len() - p.len()), p);
    }
}

/// Each place where a text stands in another counts once, and the next one is looked for
/// behind it.
pub proof fn law_occurrences_are_counted(hay: Seq<char>, needle: Seq<char>, from: nat, i: nat)
    requires
        needle.len() > 0,
        from <= i,
    ensures
        matches_at(hay, needle, i as int) && (forall|j: int|
            from <= j < i ==> !matches_at(hay, needle, j)) ==> count_from(hay, needle, from) == 1
            + count_from(hay, needle, i + needle.len()),
        (forall|j: int| from <= j ==> !matches_at(hay, needle, j)) ==> count_from(
            hay,
            needle,
            from,
        ) == 0,
{
    if matches_at(hay, needle, i as int) && (forall|j: int|
        from <= j < i ==> !matches_at(hay, needle, j)) {
        lemma_first_at(hay, needle, from, Some(i));
    }
    if forall|j: int| from <= j ==> !matches_at(hay, needle, j) {
        lemma_first_at(hay, needle, from, None);
    }
}

/// Texts are ordered by the first character in which they differ, and a text comes
/// before a longer one that starts with it.
pub proof fn law_first_difference_decides(p: Seq<char>, a: Seq<char>, b: Seq<char>)
    ensures
        a.len() > 0 && b.len() > 0 && (a[0] as int) < (b[0] as int) ==> precedes(p + a, p + b)
            && !precedes(p + b, p + a),
        b.len() > 0 ==> precedes(p, p + b) && !precedes(p + b, p),
        !precedes(p, p),
    decreases p.len(),
{
    lemma_precedes_irreflexive(p);
    if p.len() == 0 {
        assert(p + a == a);
        assert(p + b == b);
    } else {
        law_first_difference_decides(p.drop_first(), a, b);
        assert((p + a)[0] == p[0] && (p + b)[0] == p[0]);
        assert((p + a).drop_first() == p.drop_first() + a);
        assert((p + b).drop_first() == p.drop_first() + b);
    }
}

/// What follows the last separator of a text is its last piece, and a text without one is
/// its only piece.
pub proof fn law_piece_behind_a_separator(a: Seq<char>, sep: char, b: Seq<char>)
    requires
        !b.contains(sep),
    ensures
        split(a + seq![sep] + b, sep) == split(a, sep).push(b),
        split(b, sep) == seq![b],
    decreases a.len(),
{
    let s = a + seq![sep] + b;
    assert forall|i: int| 0 <= i < b.len() implies b[i] != sep by {
        if b[i] == sep {
            assert(b.contains(sep));
        }
    }
    lemma_index_of_char_unique(b, sep, b.len() as int);
    lemma_index_of_char(a, sep);
    let i = index_of_char(a, sep) as int;
    if i < a.len() {
        assert forall|k: int| 0 <= k < i implies s[k] != sep by {
            assert(s[k] == a[k]);
        }
        assert(s[i] == a[i]);
        lemma_index_of_char_unique(s, sep, i);
        assert(s.take(i) == a.take(i));
        assert(s.skip(i + 1) == a.skip(i + 1) + seq![sep] + b);
        law_piece_behind_a_separator(a.skip(i + 1), sep, b);
        assert(split(s, sep) == split(a, sep).push(b));
    } else {
        let n = a.len() as int;
        assert forall|k: int| 0 <= k < n implies s[k] != sep by {
            assert(s[k] == a[k]);
        }
        assert(s[n] == sep);
        lemma_index_of_char_unique(s, sep, n);
        assert(s.take(n) == a);
        assert(s.skip(n + 1) == b);
        assert(split(b, sep) == seq![b]);
        assert(split(s, sep) == seq![a] + seq![b]);
        assert(split(a, sep) == seq![a]);
        assert(split(s, sep) == split(a, sep).push(b));
    }
}

} // verus!
