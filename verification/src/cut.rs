//! Cutting texts to a limit on their UTF-8 bytes.
use crate::text;
use crate::text::{skip_space, slice_text, to_chars, utf8_len};
use vstd::prelude::*;

verus! {

/// The number of UTF-8 bytes of a character.
pub open spec fn width(c: char) -> nat {
    let v = c as u32;
    if v <= 0x7f {
        1
    } else if v <= 0x7ff {
        2
    } else if v <= 0xffff {
        3
    } else {
        4
    }
}

/// The number of UTF-8 bytes of a character.
pub fn char_width(c: char) -> (r: usize)
    ensures
        r == width(c),
{
    let v: u32 = c as u32;
    if v <= 0x7f {
        1
    } else if v <= 0x7ff {
        2
    } else if v <= 0xffff {
        3
    } else {
        4
    }
}

/// The bytes of a text are those of its first character and of the rest.
pub proof fn lemma_byte_len_step(s: Seq<char>)
    requires
        s.len() > 0,
    ensures
        text::byte_len(s) == width(s[0]) + text::byte_len(s.drop_first()),
{
    vstd::utf8::char_is_scalar(s[0]);
}

/// The bytes of two texts add up.
pub proof fn lemma_byte_len_concat(a: Seq<char>, b: Seq<char>)
    ensures
        text::byte_len(a + b) == text::byte_len(a) + text::byte_len(b),
    decreases a.len(),
{
    if a.len() == 0 {
        assert(a + b =~= b);
    } else {
        lemma_byte_len_step(a);
        lemma_byte_len_step(a + b);
        assert((a + b).drop_first() =~= a.drop_first() + b);
        lemma_byte_len_concat(a.drop_first(), b);
    }
}

/// The number of leading characters that fit into `limit` bytes.
pub open spec fn fitting(s: Seq<char>, limit: nat) -> nat
    decreases s.len(),
{
    if s.len() == 0 || width(s[0]) > limit {
        0
    } else {
        1 + fitting(s.drop_first(), (limit - width(s[0])) as nat)
    }
}

/// What `fitting` counts fits, and one character more does not.
pub proof fn lemma_fitting(s: Seq<char>, limit: nat)
    ensures
        fitting(s, limit) <= s.len(),
        text::byte_len(s.take(fitting(s, limit) as int)) <= limit,
        fitting(s, limit) < s.len() ==> text::byte_len(s.take(fitting(s, limit) as int + 1)) > limit,
        text::byte_len(s) > limit ==> fitting(s, limit) < s.len(),
    decreases s.len(),
{
    let n = fitting(s, limit) as int;
    if s.len() == 0 {
        assert(s.take(0) =~= s);
    } else if width(s[0]) > limit {
        assert(s.take(0) =~= Seq::<char>::empty());
        lemma_byte_len_step(s.take(1));
        assert(s.take(1).drop_first() =~= Seq::<char>::empty());
    } else {
        let rest = s.drop_first();
        let left = (limit - width(s[0])) as nat;
        lemma_fitting(rest, left);
        lemma_byte_len_step(s);
        lemma_byte_len_step(s.take(n));
        assert(s.take(n).drop_first() =~= rest.take(n - 1));
        if n < s.len() {
            lemma_byte_len_step(s.take(n + 1));
            assert(s.take(n + 1).drop_first() =~= rest.take(n));
        }
    }
}

/// Counts the characters from `from` on that fit into `limit` bytes.
pub fn count_fitting(v: &Vec<char>, from: usize, limit: usize) -> (r: usize)
    requires
        from <= v@.len(),
    ensures
        from + r <= v@.len(),
        r == fitting(v@.skip(from as int), limit as nat),
{
    let mut i: usize = from;
    let mut left: usize = limit;
    let n: usize = v.len();
    while i < n && char_width(v[i]) <= left
        invariant
            n == v@.len(),
            from <= i <= n,
            left <= limit,
            (i - from) + fitting(v@.skip(i as int), left as nat) == fitting(
                v@.skip(from as int),
                limit as nat,
            ),
        decreases n - i,
    {
        proof {
            assert(v@.skip(i as int)[0] == v@[i as int]);
            assert(v@.skip(i as int).drop_first() =~= v@.skip(i + 1));
        }
        left = left - char_width(v[i]);
        i = i + 1;
    }
    proof {
        if i < n {
            assert(v@.skip(i as int)[0] == v@[i as int]);
        }
    }
    i - from
}

/// Counts the bytes of the characters from `from` on.
pub fn bytes_from(v: &Vec<char>, from: usize, limit: usize) -> (r: bool)
    requires
        from <= v@.len(),
    ensures
        r == (text::byte_len(v@.skip(from as int)) <= limit),
{
    let k: usize = count_fitting(v, from, limit);
    proof {
        let s = v@.skip(from as int);
        lemma_fitting(s, limit as nat);
        if k == s.len() {
            assert(s.take(k as int) =~= s);
        } else {
            assert(s =~= s.take(k + 1) + s.skip(k + 1));
            lemma_byte_len_concat(s.take(k + 1), s.skip(k + 1));
        }
    }
    k == v.len() - from
}

// ---------------------------------------------------------------------------
// Shortening with an ellipsis
// ---------------------------------------------------------------------------

/// A text of more than `max` bytes cut to its leading characters that leave
/// room for three dots; a shorter one as it is.
pub open spec fn shortened(s: Seq<char>, max: nat) -> Seq<char> {
    if text::byte_len(s) > max {
        s.take(fitting(s, (max - 3) as nat) as int) + "..."@
    } else {
        s
    }
}

/// A shortened text has at most `max` bytes.
pub proof fn law_shortened_fits(s: Seq<char>, max: nat)
    requires
        max >= 3,
    ensures
        text::byte_len(shortened(s, max)) <= max,
{
    if text::byte_len(s) > max {
        let k = fitting(s, (max - 3) as nat) as int;
        lemma_fitting(s, (max - 3) as nat);
        reveal_strlit("...");
        lemma_byte_len_concat(s.take(k), "..."@);
        lemma_byte_len_step("..."@);
        lemma_byte_len_step("..."@.drop_first());
        lemma_byte_len_step("..."@.drop_first().drop_first());
    }
}

/// A text within the limit stays as it is. A longer one keeps its leading characters,
/// as many as leave room for three dots, which follow them.
pub proof fn law_shortened_keeps_the_start(s: Seq<char>, max: nat)
    requires
        max >= 3,
    ensures
        text::byte_len(s) <= max ==> shortened(s, max) == s,
        text::byte_len(s) > max ==> exists|k: int|
            0 <= k < s.len() && shortened(s, max) == #[trigger] s.take(k) + "..."@
                && text::byte_len(s.take(k)) + 3 <= max && text::byte_len(s.take(k + 1)) + 3 > max,
{
    if text::byte_len(s) > max {
        let k = fitting(s, (max - 3) as nat) as int;
        lemma_fitting(s, (max - 3) as nat);
        assert(shortened(s, max) == s.take(k) + "..."@);
    }
}

/// Shortens a text to `max` bytes.
pub fn shorten(s: &str, max: usize) -> (r: String)
    requires
        max >= 3,
    ensures
        r@ == shortened(s@, max as nat),
        text::byte_len(r@) <= max,
{
    if utf8_len(s) > max {
        let v = to_chars(s);
        let k: usize = count_fitting(&v, 0, max - 3);
        let mut out = slice_text(&v, 0, k);
        proof {
            assert(v@.skip(0) =~= s@);
            assert(out@ =~= s@.take(k as int));
            law_shortened_fits(s@, max as nat);
        }
        out.append("...");
        out
    } else {
        s.to_owned()
    }
}

// ---------------------------------------------------------------------------
// Splitting a message
// ---------------------------------------------------------------------------

/// The last position of a character, where it occurs.
pub open spec fn last_index_of(s: Seq<char>, c: char) -> Option<int>
    decreases s.len(),
{
    if s.len() == 0 {
        None
    } else if s.last() == c {
        Some(s.len() - 1)
    } else {
        last_index_of(s.drop_last(), c)
    }
}

/// Where `last_index_of` finds a character, the character stands.
pub proof fn lemma_last_index_of(s: Seq<char>, c: char)
    ensures
        match last_index_of(s, c) {
            Some(i) => 0 <= i < s.len() && s[i] == c,
            None => true,
        },
    decreases s.len(),
{
    if s.len() > 0 && s.last() != c {
        lemma_last_index_of(s.drop_last(), c);
    }
}

fn rfind(v: &Vec<char>, from: usize, to: usize, c: char) -> (r: Option<usize>)
    requires
        from <= to <= v@.len(),
    ensures
        match r {
            Some(i) => from <= i < to && last_index_of(v@.subrange(from as int, to as int), c)
                == Some(i - from),
            None => last_index_of(v@.subrange(from as int, to as int), c) is None,
        },
{
    let mut i: usize = to;
    while i > from
        invariant
            from <= i <= to <= v@.len(),
            last_index_of(v@.subrange(from as int, i as int), c) == last_index_of(
                v@.subrange(from as int, to as int),
                c,
            ),
        decreases i,
    {
        proof {
            assert(v@.subrange(from as int, i as int).last() == v@[i - 1]);
            assert(v@.subrange(from as int, i as int).drop_last() =~= v@.subrange(
                from as int,
                i - 1,
            ));
        }
        if v[i - 1] == c {
            return Some(i - 1);
        }
        i = i - 1;
    }
    None
}

/// The number of leading characters that a text is cut within: those that fit into
/// `max` bytes, or the first alone where even that does not fit.
pub open spec fn reach(s: Seq<char>, max: nat) -> nat {
    if s.len() > 0 && fitting(s, max) == 0 {
        1
    } else {
        fitting(s, max)
    }
}

/// Where a text over the limit is cut: at the last line feed of the leading
/// characters within reach, else at their last space, else behind them all.
pub open spec fn cut_point(s: Seq<char>, max: nat) -> int {
    let window = s.take(reach(s, max) as int);
    match last_index_of(window, '\n') {
        Some(i) => i,
        None => match last_index_of(window, ' ') {
            Some(i) => i,
            None => window.len() as int,
        },
    }
}

/// The pieces of a text that each fit into `max` bytes, or are a single character
/// that does not. The white space behind a cut is dropped.
pub open spec fn pieces(s: Seq<char>, max: nat) -> Seq<Seq<char>>
    decreases s.len(),
    when max > 0
    via pieces_decreases
{
    if s.len() == 0 {
        Seq::empty()
    } else if text::byte_len(s) <= max {
        seq![s]
    } else {
        seq![s.take(cut_point(s, max))] + pieces(text::trim_start(s.skip(cut_point(s, max))), max)
    }
}

#[via_fn]
proof fn pieces_decreases(s: Seq<char>, max: nat) {
    if s.len() > 0 && text::byte_len(s) > max {
        lemma_cut_progress(s, max);
    }
}

/// Trimming never lengthens a text, and shortens one that opens with white space.
pub proof fn lemma_trim_start_len(s: Seq<char>)
    ensures
        text::trim_start(s).len() <= s.len(),
        s.len() > 0 && text::is_space(s[0]) ==> text::trim_start(s).len() < s.len(),
    decreases s.len(),
{
    if s.len() > 0 && text::is_space(s[0]) {
        lemma_trim_start_len(s.drop_first());
    }
}

proof fn lemma_cut_progress(s: Seq<char>, max: nat)
    requires
        s.len() > 0,
    ensures
        0 <= cut_point(s, max) <= reach(s, max) <= s.len(),
        text::trim_start(s.skip(cut_point(s, max))).len() < s.len(),
{
    lemma_fitting(s, max);
    let window = s.take(reach(s, max) as int);
    lemma_last_index_of(window, '\n');
    lemma_last_index_of(window, ' ');
    let k = cut_point(s, max);
    lemma_trim_start_len(s.skip(k));
    if k == 0 {
        assert(s.skip(0) =~= s);
        assert(reach(s, max) >= 1);
        assert(window[0] == s[0]);
    }
}

/// A text has no more characters than bytes, and at most four bytes for each.
proof fn lemma_byte_len_bounds(s: Seq<char>)
    ensures
        s.len() <= text::byte_len(s) <= 4 * s.len(),
    decreases s.len(),
{
    if s.len() > 0 {
        lemma_byte_len_step(s);
        lemma_byte_len_bounds(s.drop_first());
    }
}

/// The messages that a text is sent as under a limit of `max` bytes.
pub open spec fn message_chunks(s: Seq<char>, max: nat) -> Seq<Seq<char>> {
    if text::byte_len(s) <= max {
        seq![s]
    } else {
        pieces(s, max)
    }
}

/// Splits a text into messages of at most `max_len` bytes: at line feeds, then
/// at spaces, then at the last character that fits. A character that alone exceeds
/// the limit is a message by itself.
pub fn split_message(s: &str, max_len: usize) -> (r: Vec<String>)
    requires
        max_len > 0 || s@.len() == 0,
    ensures
        text::texts(r@) == message_chunks(s@, max_len as nat),
{
    let mut out: Vec<String> = Vec::new();
    if utf8_len(s) <= max_len {
        out.push(s.to_owned());
        assert(text::texts(out@) =~= seq![s@]);
        return out;
    }
    let v = to_chars(s);
    let n: usize = v.len();
    let mut from: usize = 0;
    proof {
        assert(v@.skip(0) =~= s@);
        assert(text::texts(out@) + pieces(v@.skip(0), max_len as nat) =~= pieces(
            s@,
            max_len as nat,
        ));
    }
    while from < n
        invariant
            n == v@.len(),
            v@ == s@,
            from <= n,
            max_len > 0,
            text::byte_len(s@) > max_len,
            text::texts(out@) + pieces(v@.skip(from as int), max_len as nat) == pieces(
                s@,
                max_len as nat,
            ),
        decreases n - from,
    {
        let ghost rest = v@.skip(from as int);
        let ghost before = text::texts(out@);
        if bytes_from(&v, from, max_len) {
            let piece = slice_text(&v, from, n);
            out.push(piece);
            proof {
                assert(piece@ =~= rest);
                assert(text::texts(out@) =~= before + seq![rest]);
            }
            return out;
        }
        let fit: usize = count_fitting(&v, from, max_len);
        let k: usize = if fit == 0 {
            1
        } else {
            fit
        };
        proof {
            lemma_cut_progress(rest, max_len as nat);
            assert(v@.subrange(from as int, from + k) =~= rest.take(k as int));
        }
        let cut: usize = match rfind(&v, from, from + k, '\n') {
            Some(i) => i,
            None => match rfind(&v, from, from + k, ' ') {
                Some(i) => i,
                None => from + k,
            },
        };
        let piece = slice_text(&v, from, cut);
        out.push(piece);
        let next: usize = skip_space(&v, cut);
        proof {
            assert(cut - from == cut_point(rest, max_len as nat));
            assert(piece@ =~= rest.take(cut - from));
            assert(v@.skip(cut as int) =~= rest.skip(cut - from));
            assert(text::texts(out@) =~= before + seq![piece@]);
            assert(text::texts(out@) + pieces(v@.skip(next as int), max_len as nat) =~= before
                + pieces(rest, max_len as nat));
        }
        from = next;
    }
    proof {
        assert(v@.skip(from as int).len() == 0);
        assert(text::texts(out@) + pieces(v@.skip(from as int), max_len as nat) =~= text::texts(
            out@,
        ));
    }
    out
}

/// A message fits into a limit: it has no more bytes, or is a single character that
/// has more. In either case it has no more characters, and from four bytes on every
/// character fits.
pub open spec fn is_within(chunk: Seq<char>, max: nat) -> bool {
    &&& chunk.len() <= max
    &&& text::byte_len(chunk) <= max || chunk.len() == 1
    &&& max >= 4 ==> text::byte_len(chunk) <= max
}

/// No message that a text is split into exceeds the limit.
pub proof fn law_chunks_fit(s: Seq<char>, max: nat, i: int)
    requires
        max > 0,
        0 <= i < message_chunks(s, max).len(),
    ensures
        is_within(message_chunks(s, max)[i], max),
{
    lemma_byte_len_bounds(message_chunks(s, max)[i]);
    if text::byte_len(s) > max {
        lemma_pieces_fit(s, max, i);
    }
}

proof fn lemma_pieces_fit(s: Seq<char>, max: nat, i: int)
    requires
        max > 0,
        0 <= i < pieces(s, max).len(),
    ensures
        is_within(pieces(s, max)[i], max),
    decreases s.len(),
{
    lemma_byte_len_bounds(pieces(s, max)[i]);
    if s.len() == 0 || text::byte_len(s) <= max {
    } else {
        lemma_cut_progress(s, max);
        let k = cut_point(s, max);
        if i == 0 {
            lemma_fitting(s, max);
            if fitting(s, max) > 0 {
                let w = s.take(fitting(s, max) as int);
                assert(w =~= w.take(k) + w.skip(k));
                lemma_byte_len_concat(w.take(k), w.skip(k));
                assert(w.take(k) =~= s.take(k));
            }
        } else {
            lemma_pieces_fit(text::trim_start(s.skip(k)), max, i - 1);
        }
    }
}

/// A character does not stand behind its last position, and it stands nowhere where it
/// has none.
proof fn lemma_nothing_behind_last(s: Seq<char>, c: char, j: int)
    requires
        0 <= j < s.len(),
        match last_index_of(s, c) {
            Some(i) => i < j,
            None => true,
        },
    ensures
        s[j] != c,
    decreases s.len(),
{
    if s.last() != c && j < s.len() - 1 {
        lemma_nothing_behind_last(s.drop_last(), c, j);
    }
}

/// A text within the limit is one message. The first message of a longer one is a start
/// of it. It ends at the last line break that the limit leaves, else at the last space,
/// and where it leaves neither it is as long as the limit allows. The rest follows
/// without the white space that it begins with.
pub proof fn law_messages_are_cut_at_breaks(s: Seq<char>, max: nat)
    requires
        max >= 4,
    ensures
        text::byte_len(s) <= max ==> message_chunks(s, max) == seq![s],
        text::byte_len(s) > max ==> exists|w: int, k: int|
            #![trigger s.take(w), s.take(k)]
            {
                &&& 0 <= k <= w < s.len()
                &&& text::byte_len(s.take(w)) <= max < text::byte_len(s.take(w + 1))
                &&& message_chunks(s, max).len() > 0
                &&& message_chunks(s, max)[0] == s.take(k)
                &&& message_chunks(s, max).skip(1) == pieces(text::trim_start(s.skip(k)), max)
                &&& {
                    ||| k < w && s[k] == '\n' && (forall|j: int| k < j < w ==> s[j] != '\n')
                    ||| k < w && s[k] == ' ' && (forall|j: int| 0 <= j < w ==> s[j] != '\n') && (
                    forall|j: int| k < j < w ==> s[j] != ' ')
                    ||| k == w && (forall|j: int| 0 <= j < w ==> s[j] != '\n' && s[j] != ' ')
                }
            },
{
    if text::byte_len(s) > max {
        let w = fitting(s, max) as int;
        let k = cut_point(s, max);
        lemma_fitting(s, max);
        lemma_byte_len_bounds(s.take(1));
        if s.len() > 0 && w == 0 {
            assert(s.take(1).len() == 1);
        }
        assert(reach(s, max) == w);
        let window = s.take(w);
        lemma_last_index_of(window, '\n');
        lemma_last_index_of(window, ' ');
        assert forall|j: int| 0 <= j < w implies (last_index_of(window, '\n') is None ==> s[j] != '\n')
            && (last_index_of(window, '\n') matches Some(i) && i < j ==> s[j] != '\n') && (
        last_index_of(window, ' ') is None ==> s[j] != ' ') && (last_index_of(window, ' ') matches Some(
            i,
        ) && i < j ==> s[j] != ' ') by {
            assert(window[j] == s[j]);
            if last_index_of(window, '\n') is None || last_index_of(window, '\n')->0 < j {
                lemma_nothing_behind_last(window, '\n', j);
            }
            if last_index_of(window, ' ') is None || last_index_of(window, ' ')->0 < j {
                lemma_nothing_behind_last(window, ' ', j);
            }
        }
        assert(s.len() > 0);
        let first = seq![s.take(k)];
        assert((first + pieces(text::trim_start(s.skip(k)), max)).skip(1) =~= pieces(
            text::trim_start(s.skip(k)),
            max,
        ));
        assert(s.take(w) == window);
        assert(message_chunks(s, max)[0] == s.take(k));
    }
}

/// The characters of a text that are not white space.
pub open spec fn visible(s: Seq<char>) -> Seq<char> {
    s.filter(|c: char| !text::is_space(c))
}

/// The texts of a sequence, one after the other.
pub open spec fn concat(parts: Seq<Seq<char>>) -> Seq<char>
    decreases parts.len(),
{
    if parts.len() == 0 {
        Seq::empty()
    } else {
        parts[0] + concat(parts.drop_first())
    }
}

proof fn lemma_visible_concat(a: Seq<char>, b: Seq<char>)
    ensures
        visible(a + b) == visible(a) + visible(b),
{
    Seq::filter_distributes_over_add(a, b, |c: char| !text::is_space(c));
}

proof fn lemma_visible_trim(s: Seq<char>)
    ensures
        visible(text::trim_start(s)) == visible(s),
    decreases s.len(),
{
    if s.len() > 0 && text::is_space(s[0]) {
        lemma_visible_trim(s.drop_first());
        let one = seq![s[0]];
        assert(s =~= one + s.drop_first());
        lemma_visible_concat(one, s.drop_first());
        reveal_with_fuel(Seq::filter, 2);
        assert(one.drop_last() =~= Seq::<char>::empty());
        assert(visible(one) =~= Seq::<char>::empty());
        assert(visible(s) =~= visible(s.drop_first()));
    }
}

/// Splitting a text loses nothing but white space: the other characters come
/// out in the same order.
pub proof fn law_chunks_keep_text(s: Seq<char>, max: nat)
    requires
        max > 0,
    ensures
        visible(concat(message_chunks(s, max))) == visible(s),
{
    if text::byte_len(s) <= max {
        let one = seq![s];
        assert(one.drop_first() =~= Seq::<Seq<char>>::empty());
        reveal_with_fuel(concat, 2);
        assert(concat(one) =~= s);
    } else {
        lemma_pieces_keep_text(s, max);
    }
}

proof fn lemma_pieces_keep_text(s: Seq<char>, max: nat)
    requires
        max > 0,
    ensures
        visible(concat(pieces(s, max))) == visible(s),
    decreases s.len(),
{
    if s.len() == 0 {
        assert(concat(pieces(s, max)) =~= s);
    } else if text::byte_len(s) <= max {
        let one = seq![s];
        assert(one.drop_first() =~= Seq::<Seq<char>>::empty());
        reveal_with_fuel(concat, 2);
        assert(concat(one) =~= s);
    } else {
        lemma_cut_progress(s, max);
        let k = cut_point(s, max);
        let rest = text::trim_start(s.skip(k));
        lemma_pieces_keep_text(rest, max);
        assert(pieces(s, max).drop_first() =~= pieces(rest, max));
        lemma_visible_concat(s.take(k), concat(pieces(rest, max)));
        lemma_visible_trim(s.skip(k));
        assert(s =~= s.take(k) + s.skip(k));
        lemma_visible_concat(s.take(k), s.skip(k));
    }
}

} // verus!
