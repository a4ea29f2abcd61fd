//! File paths as texts with `/` between their components.
use crate::text;
use crate::text::{cat2, cat3, slice_text, split_text, str_eq, to_chars};
use vstd::prelude::*;

verus! {

/// A path with a further part: an absolute part replaces the path.
pub open spec fn joined(base: Seq<char>, part: Seq<char>) -> Seq<char> {
    if part.len() > 0 && part[0] == '/' {
        part
    } else if base.len() == 0 || base.last() == '/' {
        base + part
    } else {
        base + seq!['/'] + part
    }
}

/// Joins a path and a part.
pub fn path_join(base: &str, part: &str) -> (r: String)
    ensures
        r@ == joined(base@, part@),
{
    let p = to_chars(part);
    if p.len() > 0 && p[0] == '/' {
        return part.to_owned();
    }
    let b = to_chars(base);
    if b.len() == 0 || b[b.len() - 1] == '/' {
        cat2(base, part)
    } else {
        proof {
            reveal_strlit("/");
            assert("/"@ =~= seq!['/']);
        }
        cat3(base, "/", part)
    }
}

/// A path component that counts: neither empty nor the current directory.
pub open spec fn is_component(part: Seq<char>) -> bool {
    part.len() > 0 && part != seq!['.']
}

/// The last component that counts among the first `n` parts.
pub open spec fn last_component(parts: Seq<Seq<char>>, n: nat) -> Option<Seq<char>>
    decreases n,
{
    if n == 0 || n > parts.len() {
        None
    } else if is_component(parts[n - 1]) {
        Some(parts[n - 1])
    } else {
        last_component(parts, (n - 1) as nat)
    }
}

/// The last component is one of the parts, and not empty.
pub proof fn lemma_last_component(parts: Seq<Seq<char>>, n: nat)
    requires
        n <= parts.len(),
    ensures
        last_component(parts, n) is Some ==> last_component(parts, n)->0.len() > 0
            && parts.contains(last_component(parts, n)->0),
    decreases n,
{
    if n > 0 {
        if is_component(parts[n - 1]) {
            assert(parts.contains(parts[n - 1]));
        } else {
            lemma_last_component(parts, (n - 1) as nat);
        }
    }
}

/// The file name of a path: its last component, unless that leads upwards.
pub open spec fn file_name(path: Seq<char>) -> Option<Seq<char>> {
    let parts = text::split(path, '/');
    match last_component(parts, parts.len()) {
        Some(name) => if name == seq!['.', '.'] {
            None
        } else {
            Some(name)
        },
        None => None,
    }
}

/// Reads the file name of a path.
pub fn path_file_name(path: &str) -> (r: Option<String>)
    ensures
        text::opt_text(r) == file_name(path@),
{
    let parts = split_text(path, '/');
    let mut n: usize = parts.len();
    proof {
        reveal_strlit(".");
        reveal_strlit("..");
        assert("."@ =~= seq!['.']);
        assert(".."@ =~= seq!['.', '.']);
    }
    while n > 0
        invariant
            n <= parts@.len(),
            text::texts(parts@) == text::split(path@, '/'),
            last_component(text::texts(parts@), n as nat) == last_component(
                text::texts(parts@),
                parts@.len() as nat,
            ),
            "."@ == seq!['.'],
            ".."@ == seq!['.', '.'],
        decreases n,
    {
        let part = &parts[n - 1];
        assert(text::texts(parts@)[n - 1] == part@);
        if !part.as_str().is_empty() && !str_eq(part.as_str(), ".") {
            if str_eq(part.as_str(), "..") {
                return None;
            }
            return Some(part.clone());
        }
        n = n - 1;
    }
    None
}

/// The position of the last dot of a text, where it has one.
pub open spec fn last_dot(s: Seq<char>) -> Option<int>
    decreases s.len(),
{
    if s.len() == 0 {
        None
    } else if s.last() == '.' {
        Some(s.len() - 1)
    } else {
        last_dot(s.drop_last())
    }
}

/// The extension of a file name: what follows its last dot, unless that dot
/// opens the name.
pub open spec fn name_extension(name: Seq<char>) -> Option<Seq<char>> {
    match last_dot(name) {
        Some(i) => if i > 0 {
            Some(name.skip(i + 1))
        } else {
            None
        },
        None => None,
    }
}

/// A file name without its extension.
pub open spec fn name_stem(name: Seq<char>) -> Seq<char> {
    match last_dot(name) {
        Some(i) => if i > 0 {
            name.take(i)
        } else {
            name
        },
        None => name,
    }
}

/// The stem and the extension of a file name.
pub fn split_extension(name: &str) -> (r: (String, Option<String>))
    ensures
        r.0@ == name_stem(name@),
        text::opt_text(r.1) == name_extension(name@),
{
    let v = to_chars(name);
    let mut n: usize = v.len();
    assert(v@.take(n as int) =~= name@);
    while n > 0 && v[n - 1] != '.'
        invariant
            n <= v@.len(),
            last_dot(v@.take(n as int)) == last_dot(name@),
        decreases n,
    {
        proof {
            assert(v@.take(n as int).drop_last() =~= v@.take(n - 1));
        }
        n = n - 1;
    }
    if n > 1 {
        let stem = slice_text(&v, 0, n - 1);
        let ext = slice_text(&v, n, v.len());
        proof {
            assert(last_dot(name@) == Some(n - 1));
            assert(stem@ =~= name@.take(n - 1));
            assert(ext@ =~= name@.skip(n as int));
        }
        (stem, Some(ext))
    } else {
        (name.to_owned(), None)
    }
}

/// A part is joined to a path with one slash between them; an absolute part replaces
/// the path, and the empty path adds nothing.
pub proof fn law_parts_are_joined_with_a_slash(base: Seq<char>, part: Seq<char>)
    ensures
        part.len() > 0 && part[0] == '/' ==> joined(base, part) == part,
        part.len() == 0 || part[0] != '/' ==> {
            &&& (base.len() > 0 && base.last() != '/' ==> joined(base, part) == base + "/"@ + part)
            &&& (base.len() > 0 && base.last() == '/' ==> joined(base, part) == base + part)
            &&& (base.len() == 0 ==> joined(base, part) == part)
        },
{
    reveal_strlit("/");
    assert("/"@ == seq!['/']);
    assert(base.len() == 0 ==> base + part == part);
}

proof fn lemma_last_component_grows(parts: Seq<Seq<char>>, part: Seq<char>, n: nat)
    requires
        n <= parts.len(),
    ensures
        last_component(parts.push(part), n) == last_component(parts, n),
    decreases n,
{
    if n > 0 {
        lemma_last_component_grows(parts, part, (n - 1) as nat);
    }
}

/// The file name of a path is what follows its last slash, or the whole path where it has
/// none. A slash or a dot at the end of a path names nothing, so the name is that of the
/// path before it, and a path that leads upwards has no file name.
pub proof fn law_file_name_follows_the_last_slash(dir: Seq<char>, name: Seq<char>)
    requires
        !name.contains('/'),
    ensures
        name.len() > 0 && name != "."@ && name != ".."@ ==> file_name(dir + "/"@ + name) == Some(name)
            && file_name(name) == Some(name),
        name == ".."@ ==> file_name(dir + "/"@ + name) is None,
        name.len() == 0 || name == "."@ ==> file_name(dir + "/"@ + name) == file_name(dir),
{
    reveal_strlit("/");
    reveal_strlit(".");
    reveal_strlit("..");
    assert("/"@ == seq!['/']);
    assert("."@ == seq!['.']);
    assert(".."@ == seq!['.', '.']);
    text::law_piece_behind_a_separator(dir, '/', name);
    let parts = text::split(dir, '/');
    let all = parts.push(name);
    lemma_last_component_grows(parts, name, parts.len());
    assert(all[all.len() - 1] == name);
}

proof fn lemma_last_dot(a: Seq<char>, b: Seq<char>)
    requires
        !b.contains('.'),
    ensures
        last_dot(a + seq!['.'] + b) == Some(a.len() as int),
    decreases b.len(),
{
    let s = a + seq!['.'] + b;
    if b.len() == 0 {
        assert(s.last() == '.');
    } else {
        assert(s.last() == b.last());
        assert(b.contains(b.last()));
        assert(s.drop_last() == a + seq!['.'] + b.drop_last());
        assert forall|c: char| b.drop_last().contains(c) implies b.contains(c) by {
            let k = choose|k: int| 0 <= k < b.drop_last().len() && b.drop_last()[k] == c;
            assert(b[k] == c);
        }
        lemma_last_dot(a, b.drop_last());
    }
}

proof fn lemma_no_dot(s: Seq<char>)
    requires
        !s.contains('.'),
    ensures
        last_dot(s) is None,
    decreases s.len(),
{
    if s.len() > 0 {
        assert(s.contains(s.last()));
        assert forall|c: char| s.drop_last().contains(c) implies s.contains(c) by {
            let k = choose|k: int| 0 <= k < s.drop_last().len() && s.drop_last()[k] == c;
            assert(s[k] == c);
        }
        lemma_no_dot(s.drop_last());
    }
}

/// The extension of a name is what follows its last dot, and its stem is what stands in
/// front of it. A name without a dot, or with its only dot in front, has no extension and
/// is its own stem.
pub proof fn law_extension_follows_the_last_dot(stem: Seq<char>, ext: Seq<char>)
    requires
        !ext.contains('.'),
    ensures
        stem.len() > 0 ==> name_extension(stem + "."@ + ext) == Some(ext) && name_stem(
            stem + "."@ + ext,
        ) == stem,
        name_extension("."@ + ext) is None && name_stem("."@ + ext) == "."@ + ext,
        name_extension(ext) is None && name_stem(ext) == ext,
{
    reveal_strlit(".");
    assert("."@ == seq!['.']);
    lemma_last_dot(stem, ext);
    lemma_last_dot(Seq::empty(), ext);
    assert(Seq::<char>::empty() + seq!['.'] + ext == "."@ + ext);
    lemma_no_dot(ext);
    let s = stem + "."@ + ext;
    assert(s.skip(stem.len() as int + 1) == ext);
    assert(s.take(stem.len() as int) == stem);
}

} // verus!
