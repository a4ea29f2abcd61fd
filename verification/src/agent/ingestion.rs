//! Memory ingestion: files are cut into chunks, and each chunk is handed on to be
//! remembered. A file is deleted after all its chunks were ingested; chunks that
//! were ingested before a restart are skipped.
use crate::hashing;
use crate::hashing::sha256_hex;
use crate::cut;
use crate::message::Timestamp;
use crate::paths;
use crate::paths::{path_file_name, split_extension};
use crate::text;
use crate::text::{lines_of, lower_text, starts_with, str_eq, trim_text, utf8_len};
use vstd::prelude::*;

verus! {

/// An extension, in lower case, that suggests text content.
pub open spec fn is_text_extension(ext: Seq<char>) -> bool {
    ext == "txt"@ || ext == "md"@ || ext == "markdown"@ || ext == "json"@ || ext == "jsonl"@ || ext
        == "csv"@ || ext == "tsv"@ || ext == "log"@ || ext == "xml"@ || ext == "yaml"@ || ext
        == "yml"@ || ext == "toml"@ || ext == "rst"@ || ext == "org"@ || ext == "html"@ || ext
        == "htm"@
}

/// Whether an extension in lower case suggests text content.
pub fn has_text_extension(ext: &str) -> (r: bool)
    ensures
        r == is_text_extension(ext@),
{
    str_eq(ext, "txt") || str_eq(ext, "md") || str_eq(ext, "markdown") || str_eq(ext, "json")
        || str_eq(ext, "jsonl") || str_eq(ext, "csv") || str_eq(ext, "tsv") || str_eq(ext, "log")
        || str_eq(ext, "xml") || str_eq(ext, "yaml") || str_eq(ext, "yml") || str_eq(ext, "toml")
        || str_eq(ext, "rst") || str_eq(ext, "org") || str_eq(ext, "html") || str_eq(ext, "htm")
}

/// The extension of the file that a path names.
pub open spec fn extension(path: Seq<char>) -> Option<Seq<char>> {
    match paths::file_name(path) {
        Some(name) => paths::name_extension(name),
        None => None,
    }
}

/// Check if a file extension suggests text content. A file without an extension is
/// taken for a text.
pub fn is_text_file(path: &str) -> (r: bool)
    ensures
        r == (match extension(path@) {
            Some(ext) => is_text_extension(text::lower(ext)),
            None => true,
        }),
{
    match path_file_name(path) {
        Some(name) => {
            let (_, ext) = split_extension(name.as_str());
            match ext {
                Some(e) => {
                    let lower = lower_text(e.as_str());
                    has_text_extension(lower.as_str())
                },
                None => true,
            }
        },
        None => true,
    }
}

/// An entry of the directory that files are ingested from.
pub struct ScannedFile {
    pub path: String,
    pub is_file: bool,
    pub modified: Option<Timestamp>,
}

/// A file to ingest: no directory, not hidden, and a text by its extension.
pub open spec fn is_wanted(f: ScannedFile) -> bool {
    &&& f.is_file
    &&& match paths::file_name(f.path@) {
        Some(name) => !(name.len() > 0 && name[0] == '.'),
        None => true,
    }
    &&& match extension(f.path@) {
        Some(ext) => is_text_extension(text::lower(ext)),
        None => true,
    }
}

/// Whether an entry is a file to ingest.
fn wants(f: &ScannedFile) -> (r: bool)
    ensures
        r == is_wanted(*f),
{
    if !f.is_file {
        return false;
    }
    if let Some(name) = path_file_name(f.path.as_str()) {
        proof {
            reveal_strlit(".");
            assert("."@ =~= seq!['.']);
            if "."@.is_prefix_of(name@) {
                assert(name@[0] == "."@[0]);
            }
            if name@.len() > 0 && name@[0] == '.' {
                assert("."@.is_prefix_of(name@));
            }
        }
        if starts_with(name.as_str(), ".") {
            return false;
        }
    }
    is_text_file(f.path.as_str())
}

/// A time comes after another. A missing time comes first.
pub open spec fn later(a: Option<Timestamp>, b: Option<Timestamp>) -> bool {
    match (a, b) {
        (Some(x), Some(y)) => y.before(x),
        (Some(_), None) => true,
        (None, _) => false,
    }
}

/// Whether a time comes after another.
fn is_later(a: &Option<Timestamp>, b: &Option<Timestamp>) -> (r: bool)
    ensures
        r == later(*a, *b),
{
    match (a, b) {
        (Some(x), Some(y)) => y.is_before(x),
        (Some(_), None) => true,
        (None, _) => false,
    }
}

/// The number of leading files that are not later than a time.
pub open spec fn place(files: Seq<ScannedFile>, t: Option<Timestamp>) -> nat
    decreases files.len(),
{
    if files.len() == 0 {
        0
    } else if later(files.last().modified, t) {
        place(files.drop_last(), t)
    } else {
        files.len()
    }
}

/// The files to ingest among entries, oldest first. Files of the same time keep
/// their order.
pub open spec fn scanned(entries: Seq<ScannedFile>) -> Seq<ScannedFile>
    decreases entries.len(),
{
    if entries.len() == 0 {
        Seq::empty()
    } else {
        let rest = scanned(entries.drop_last());
        let f = entries.last();
        if is_wanted(f) {
            rest.insert(place(rest, f.modified) as int, f)
        } else {
            rest
        }
    }
}

/// The place of a file lies within the files, or at their end.
proof fn lemma_place(files: Seq<ScannedFile>, t: Option<Timestamp>)
    ensures
        place(files, t) <= files.len(),
        place(files, t) > 0 ==> !later(files[place(files, t) - 1].modified, t),
        forall|i: int|
            place(files, t) <= i < files.len() ==> later((#[trigger] files[i]).modified, t),
    decreases files.len(),
{
    if files.len() > 0 && later(files.last().modified, t) {
        lemma_place(files.drop_last(), t);
        assert forall|i: int| place(files, t) <= i < files.len() implies later(
            (#[trigger] files[i]).modified,
            t,
        ) by {
            if i < files.len() - 1 {
                assert(files.drop_last()[i] == files[i]);
            }
        }
    }
}

/// Finds the files to ingest among the entries of a directory, oldest first.
pub fn scan_ingest_dir(entries: Vec<ScannedFile>) -> (r: Vec<ScannedFile>)
    ensures
        r@ == scanned(entries@),
{
    let mut out: Vec<ScannedFile> = Vec::new();
    for f in it: entries
        invariant
            it.seq() == entries@,
            out@ == scanned(entries@.take(it.index() as int)),
    {
        proof {
            let i = it.index() as int;
            assert(entries@.take(i + 1).drop_last() =~= entries@.take(i));
            assert(entries@.take(i + 1).last() == entries@[i]);
        }
        if wants(&f) {
            let mut k: usize = out.len();
            assert(out@.take(k as int) =~= out@);
            while k > 0 && is_later(&out[k - 1].modified, &f.modified)
                invariant
                    k <= out@.len(),
                    place(out@, f.modified) == place(out@.take(k as int), f.modified),
                decreases k,
            {
                assert(out@.take(k as int).last() == out@[k - 1]);
                assert(out@.take(k as int).drop_last() =~= out@.take(k - 1));
                k = k - 1;
            }
            proof {
                if k > 0 {
                    assert(out@.take(k as int).last() == out@[k - 1]);
                }
            }
            out.insert(k, f);
        }
    }
    assert(entries@.take(entries@.len() as int) =~= entries@);
    out
}

/// Files stand in the order of their times.
pub open spec fn oldest_first(files: Seq<ScannedFile>) -> bool {
    forall|i: int, j: int|
        0 <= i < j < files.len() ==> !later(
            (#[trigger] files[i]).modified,
            (#[trigger] files[j]).modified,
        )
}

/// The order of times is transitive.
proof fn lemma_later(a: Option<Timestamp>, b: Option<Timestamp>, c: Option<Timestamp>)
    requires
        !later(a, b),
        !later(b, c),
    ensures
        !later(a, c),
{
}

/// The files to ingest stand in the order of their times, oldest first, and are
/// the entries that are wanted, each as often as it is there.
pub proof fn law_oldest_files_first(entries: Seq<ScannedFile>)
    ensures
        oldest_first(scanned(entries)),
        scanned(entries).to_multiset() == entries.filter(
            |f: ScannedFile| is_wanted(f),
        ).to_multiset(),
    decreases entries.len(),
{
    let wanted = |f: ScannedFile| is_wanted(f);
    reveal_with_fuel(Seq::filter, 2);
    if entries.len() > 0 {
        let rest = scanned(entries.drop_last());
        let f = entries.last();
        law_oldest_files_first(entries.drop_last());
        if is_wanted(f) {
            let k = place(rest, f.modified) as int;
            lemma_place(rest, f.modified);
            let after = rest.insert(k, f);
            assert forall|i: int, j: int| 0 <= i < j < after.len() implies !later(
                (#[trigger] after[i]).modified,
                (#[trigger] after[j]).modified,
            ) by {
                if j == k {
                    if i < k - 1 {
                        assert(after[i] == rest[i]);
                        lemma_later(rest[i].modified, rest[k - 1].modified, f.modified);
                    }
                } else if i == k {
                    assert(after[j] == rest[j - 1]);
                    assert(later(rest[j - 1].modified, f.modified));
                } else if i < k && j < k {
                    assert(after[i] == rest[i] && after[j] == rest[j]);
                } else if i < k {
                    assert(after[i] == rest[i] && after[j] == rest[j - 1]);
                } else {
                    assert(after[i] == rest[i - 1] && after[j] == rest[j - 1]);
                }
            }
            broadcast use vstd::seq_lib::group_to_multiset_ensures;

            assert(after.to_multiset() =~= rest.to_multiset().insert(f)) by {
                vstd::seq_lib::to_multiset_insert(rest, k, f);
            }
            let kept = entries.drop_last().filter(wanted);
            assert(kept.push(f).to_multiset() =~= kept.to_multiset().insert(f));
        }
    } else {
        assert(scanned(entries) =~= entries.filter(wanted));
    }
}

/// SHA-256 hex digest of file content, used as a stable identifier for progress
/// tracking across restarts.
pub fn content_hash(content: &str) -> (r: String)
    ensures
        r@ == hashing::sha256_text(vstd::utf8::encode_utf8(content@)),
        r@.len() == 64,
{
    sha256_hex(content.as_bytes())
}

/// Full chunks and the chunk that is being filled, after one more line. A line that
/// no longer fits starts a new chunk; a line that ends a chunk is never cut.
pub open spec fn with_line(
    done: Seq<Seq<char>>,
    current: Seq<char>,
    line: Seq<char>,
    size: nat,
) -> (Seq<Seq<char>>, Seq<char>) {
    if current.len() == 0 {
        (done, line)
    } else if text::byte_len(current) + text::byte_len(line) + 1 > size {
        (done.push(current), line)
    } else {
        (done, current + seq!['\n'] + line)
    }
}

/// Full chunks and the chunk that is being filled, after some lines.
pub open spec fn with_lines(lines: Seq<Seq<char>>, size: nat) -> (Seq<Seq<char>>, Seq<char>)
    decreases lines.len(),
{
    if lines.len() == 0 {
        (Seq::empty(), Seq::empty())
    } else {
        let (done, current) = with_lines(lines.drop_last(), size);
        with_line(done, current, lines.last(), size)
    }
}

/// The chunks of a text: the text itself where it is small enough, else its lines
/// in groups.
pub open spec fn chunked(s: Seq<char>, size: nat) -> Seq<Seq<char>> {
    if text::byte_len(s) <= size {
        seq![s]
    } else {
        let (done, current) = with_lines(text::lines(s), size);
        if current.len() > 0 {
            done.push(current)
        } else {
            done
        }
    }
}

/// Split text into chunks at line boundaries.
///
/// Chunks target `chunk_size` bytes but won't split mid-line. If a single line
/// exceeds `chunk_size`, it gets its own chunk.
pub fn chunk_text(s: &str, chunk_size: usize) -> (r: Vec<String>)
    ensures
        text::texts(r@) == chunked(s@, chunk_size as nat),
{
    let mut chunks: Vec<String> = Vec::new();
    if utf8_len(s) <= chunk_size {
        chunks.push(s.to_owned());
        assert(text::texts(chunks@) =~= seq![s@]);
        return chunks;
    }
    let lines = lines_of(s);
    let ghost all = text::texts(lines@);
    let mut current = String::new();
    let n: usize = lines.len();
    let mut i: usize = 0;
    assert(text::texts(chunks@) =~= Seq::<Seq<char>>::empty());
    assert(current@ =~= Seq::<char>::empty());
    while i < n
        invariant
            n == lines@.len(),
            i <= n,
            all == text::texts(lines@),
            (text::texts(chunks@), current@) == with_lines(all.take(i as int), chunk_size as nat),
        decreases n - i,
    {
        proof {
            assert(all.take(i + 1).drop_last() =~= all.take(i as int));
            assert(all.take(i + 1).last() == lines@[i as int]@);
        }
        let ghost old_current = current@;
        let ghost old_chunks = chunks@;
        let line = lines[i].as_str();
        if current.as_str().is_empty() {
            current.append(line);
            assert(current@ =~= line@);
        } else {
            let line_len: usize = utf8_len(line);
            let current_len: usize = utf8_len(current.as_str());
            if line_len >= chunk_size || current_len > chunk_size - 1 - line_len {
                chunks.push(current);
                current = line.to_owned();
                assert(text::texts(chunks@) =~= text::texts(old_chunks).push(old_current));
            } else {
                current.push('\n');
                current.append(line);
                assert(current@ =~= old_current + seq!['\n'] + line@);
            }
        }
        i = i + 1;
    }
    assert(all.take(n as int) =~= all);
    if !current.as_str().is_empty() {
        let ghost old_chunks = chunks@;
        let ghost old_current = current@;
        chunks.push(current);
        assert(text::texts(chunks@) =~= text::texts(old_chunks).push(old_current));
    }
    chunks
}

/// A chunk is small enough, or it is a single line.
pub open spec fn fits(chunk: Seq<char>, size: nat) -> bool {
    text::byte_len(chunk) <= size || !chunk.contains('\n')
}

/// A chunk that is no text as a whole: it is not empty, does not start with a line
/// break, and is small enough or a single line.
pub open spec fn is_group(chunk: Seq<char>, size: nat) -> bool {
    chunk.len() > 0 && chunk[0] != '\n' && fits(chunk, size)
}

/// The lines of a text hold no line break.
proof fn lemma_lines(s: Seq<char>)
    ensures
        forall|i: int| 0 <= i < text::lines(s).len() ==> !(#[trigger] text::lines(s)[i]).contains('\n'),
    decreases s.len(),
{
    let i = text::index_of_char(s, '\n') as int;
    text::lemma_index_of_char(s, '\n');
    if s.len() > 0 {
        if i < s.len() {
            lemma_lines(s.skip(i + 1));
            let first = text::drop_cr(s.take(i));
            assert(!first.contains('\n')) by {
                if first.contains('\n') {
                    let k = choose|k: int| 0 <= k < first.len() && first[k] == '\n';
                    assert(s[k] == first[k]);
                }
            }
            assert forall|k: int| 0 <= k < text::lines(s).len() implies !(
            #[trigger] text::lines(s)[k]).contains('\n') by {
                if k > 0 {
                    assert(text::lines(s)[k] == text::lines(s.skip(i + 1))[k - 1]);
                }
            }
        }
    }
}

/// The groups of lines are well made.
proof fn lemma_groups(lines: Seq<Seq<char>>, size: nat)
    requires
        forall|i: int| 0 <= i < lines.len() ==> !(#[trigger] lines[i]).contains('\n'),
    ensures
        forall|i: int|
            0 <= i < with_lines(lines, size).0.len() ==> is_group(
                #[trigger] with_lines(lines, size).0[i],
                size,
            ),
        with_lines(lines, size).1.len() > 0 ==> is_group(with_lines(lines, size).1, size),
    decreases lines.len(),
{
    if lines.len() > 0 {
        let rest = lines.drop_last();
        assert forall|i: int| 0 <= i < rest.len() implies !(#[trigger] rest[i]).contains('\n') by {
            assert(rest[i] == lines[i]);
        }
        lemma_groups(rest, size);
        let (done, current) = with_lines(rest, size);
        let line = lines.last();
        assert(!line.contains('\n'));
        if line.len() > 0 {
            assert(line[0] != '\n') by {
                if line[0] == '\n' {
                    assert(line.contains('\n'));
                }
            }
        }
        if current.len() > 0 && text::byte_len(current) + text::byte_len(line) + 1 <= size {
            let next = current + seq!['\n'] + line;
            cut::lemma_byte_len_concat(current + seq!['\n'], line);
            cut::lemma_byte_len_concat(current, seq!['\n']);
            cut::lemma_byte_len_step(seq!['\n']);
            assert(seq!['\n'].drop_first() =~= Seq::<char>::empty());
            assert(next[0] == current[0]);
        }
        let after = with_lines(lines, size).0;
        assert forall|i: int| 0 <= i < after.len() implies is_group(#[trigger] after[i], size) by {
            if i < done.len() {
                assert(after[i] == done[i]);
            }
        }
    }
}

/// The chunks of a text that was cut: none is empty or starts with a line break,
/// and each is small enough or a single line.
pub proof fn law_chunks_are_groups_of_lines(s: Seq<char>, size: nat, i: int)
    requires
        text::byte_len(s) > size,
        0 <= i < chunked(s, size).len(),
    ensures
        is_group(chunked(s, size)[i], size),
{
    lemma_lines(s);
    lemma_groups(text::lines(s), size);
    let (done, current) = with_lines(text::lines(s), size);
    if i < done.len() {
        assert(chunked(s, size)[i] == done[i]);
    }
}

/// The lines of a list that are not empty.
pub open spec fn filled(lines: Seq<Seq<char>>) -> Seq<Seq<char>>
    decreases lines.len(),
{
    if lines.len() == 0 {
        Seq::empty()
    } else if lines.last().len() > 0 {
        filled(lines.drop_last()).push(lines.last())
    } else {
        filled(lines.drop_last())
    }
}

/// The lines of some chunks that are not empty, in order.
pub open spec fn filled_in(chunks: Seq<Seq<char>>) -> Seq<Seq<char>>
    decreases chunks.len(),
{
    if chunks.len() == 0 {
        Seq::empty()
    } else {
        filled_in(chunks.drop_last()) + filled(text::split(chunks.last(), '\n'))
    }
}

/// A text without the separator is its only piece.
proof fn lemma_split_one(s: Seq<char>, sep: char)
    requires
        !s.contains(sep),
    ensures
        text::split(s, sep) == seq![s],
{
    text::lemma_index_of_char(s, sep);
    let i = text::index_of_char(s, sep) as int;
    if i < s.len() {
        assert(s[i] == sep);
    }
}

/// A piece behind a separator is the last piece.
proof fn lemma_split_append(a: Seq<char>, sep: char, b: Seq<char>)
    requires
        !b.contains(sep),
    ensures
        text::split(a + seq![sep] + b, sep) == text::split(a, sep).push(b),
    decreases a.len(),
{
    let whole = a + seq![sep] + b;
    let i = text::index_of_char(a, sep) as int;
    text::lemma_index_of_char(a, sep);
    if i < a.len() {
        assert forall|k: int| 0 <= k < i implies whole[k] != sep by {
            assert(whole[k] == a[k]);
        }
        assert(whole[i] == a[i]);
        text::lemma_index_of_char_unique(whole, sep, i);
        assert(whole.take(i) =~= a.take(i));
        assert(whole.skip(i + 1) =~= a.skip(i + 1) + seq![sep] + b);
        lemma_split_append(a.skip(i + 1), sep, b);
        assert(text::split(whole, sep) =~= text::split(a, sep).push(b));
    } else {
        assert forall|k: int| 0 <= k < a.len() implies whole[k] != sep by {
            assert(whole[k] == a[k]);
        }
        assert(whole[a.len() as int] == sep);
        text::lemma_index_of_char_unique(whole, sep, a.len() as int);
        assert(whole.take(a.len() as int) =~= a);
        assert(whole.skip(a.len() as int + 1) =~= b);
        lemma_split_one(b, sep);
        assert(text::split(whole, sep) =~= text::split(a, sep).push(b));
    }
}

/// Grouping lines keeps those that are not empty, in order.
proof fn lemma_groups_keep_lines(lines: Seq<Seq<char>>, size: nat)
    requires
        forall|i: int| 0 <= i < lines.len() ==> !(#[trigger] lines[i]).contains('\n'),
    ensures
        filled(lines) == filled_in(with_lines(lines, size).0) + filled(
            text::split(with_lines(lines, size).1, '\n'),
        ),
    decreases lines.len(),
{
    reveal_with_fuel(filled, 2);
    if lines.len() == 0 {
        assert(!Seq::<char>::empty().contains('\n'));
        lemma_split_one(Seq::empty(), '\n');
        assert(seq![Seq::<char>::empty()].drop_last() =~= Seq::<Seq<char>>::empty());
        assert(filled(lines) =~= filled_in(with_lines(lines, size).0) + filled(
            text::split(with_lines(lines, size).1, '\n'),
        ));
    } else {
        let rest = lines.drop_last();
        let line = lines.last();
        assert forall|i: int| 0 <= i < rest.len() implies !(#[trigger] rest[i]).contains('\n') by {
            assert(rest[i] == lines[i]);
        }
        lemma_groups_keep_lines(rest, size);
        let (done, current) = with_lines(rest, size);
        let (done2, current2) = with_lines(lines, size);
        assert(!line.contains('\n'));
        lemma_split_one(line, '\n');
        assert(seq![line].drop_last() =~= Seq::<Seq<char>>::empty());
        if current.len() == 0 {
            assert(current =~= Seq::<char>::empty());
            assert(!Seq::<char>::empty().contains('\n'));
            lemma_split_one(Seq::empty(), '\n');
            assert(seq![Seq::<char>::empty()].drop_last() =~= Seq::<Seq<char>>::empty());
        } else if text::byte_len(current) + text::byte_len(line) + 1 > size {
            assert(done.push(current).drop_last() =~= done);
        } else {
            lemma_split_append(current, '\n', line);
            assert(text::split(current, '\n').push(line).drop_last() =~= text::split(
                current,
                '\n',
            ));
        }
        assert(filled(lines) =~= filled_in(done2) + filled(text::split(current2, '\n')));
    }
}

/// Cutting a text loses no line and splits none: the lines of the chunks that are
/// not empty are those of the text, in order. A text that is small enough is kept as
/// it is.
pub proof fn law_chunks_keep_lines(s: Seq<char>, size: nat)
    ensures
        if text::byte_len(s) <= size {
            chunked(s, size) == seq![s]
        } else {
            filled_in(chunked(s, size)) == filled(text::lines(s))
        },
{
    lemma_lines(s);
    lemma_groups_keep_lines(text::lines(s), size);
    let (done, current) = with_lines(text::lines(s), size);
    if current.len() > 0 {
        assert(done.push(current).drop_last() =~= done);
    } else {
        assert(current =~= Seq::<char>::empty());
        assert(!Seq::<char>::empty().contains('\n'));
        lemma_split_one(Seq::empty(), '\n');
        reveal_with_fuel(filled, 2);
        assert(seq![Seq::<char>::empty()].drop_last() =~= Seq::<Seq<char>>::empty());
        assert(filled_in(done) + Seq::<Seq<char>>::empty() =~= filled_in(done));
    }
}

/// How a file is taken up.
pub enum FilePlan {
    /// It holds nothing: it is deleted.
    Discard,
    /// It is ingested in chunks.
    Ingest { filename: String, hash: String, file_size: usize, chunks: Vec<String> },
}

/// The name of a file, or `unknown`.
pub open spec fn known_name(path: Seq<char>) -> Seq<char> {
    match paths::file_name(path) {
        Some(n) => n,
        None => "unknown"@,
    }
}

/// Decides how a file is taken up.
pub fn plan_file(path: &str, content: &str, chunk_size: usize) -> (r: FilePlan)
    ensures
        match r {
            FilePlan::Discard => text::trim(content@).len() == 0,
            FilePlan::Ingest { filename, hash, file_size, chunks } => {
                &&& text::trim(content@).len() > 0
                &&& filename@ == known_name(path@)
                &&& hash@ == hashing::sha256_text(vstd::utf8::encode_utf8(content@))
                &&& file_size == text::byte_len(content@)
                &&& text::texts(chunks@) == chunked(content@, chunk_size as nat)
            },
        },
{
    if trim_text(content).as_str().is_empty() {
        return FilePlan::Discard;
    }
    let filename = match path_file_name(path) {
        Some(n) => n,
        None => "unknown".to_owned(),
    };
    FilePlan::Ingest {
        filename,
        hash: content_hash(content),
        file_size: utf8_len(content),
        chunks: chunk_text(content, chunk_size),
    }
}

/// The chunks that are still to be ingested, in order.
pub open spec fn pending(total: nat, completed: Seq<i64>) -> Seq<usize>
    decreases total,
{
    if total == 0 {
        Seq::empty()
    } else {
        let rest = pending((total - 1) as nat, completed);
        if completed.contains((total - 1) as i64) {
            rest
        } else {
            rest.push((total - 1) as usize)
        }
    }
}

/// Finds the chunks that are still to be ingested.
pub fn pending_chunks(total: usize, completed: &Vec<i64>) -> (r: Vec<usize>)
    requires
        total <= i64::MAX,
    ensures
        r@ == pending(total as nat, completed@),
{
    let mut out: Vec<usize> = Vec::new();
    let mut i: usize = 0;
    while i < total
        invariant
            i <= total,
            total <= i64::MAX,
            out@ == pending(i as nat, completed@),
        decreases total - i,
    {
        let mut found = false;
        let n: usize = completed.len();
        let mut j: usize = 0;
        while j < n
            invariant
                n == completed@.len(),
                j <= n,
                i < total <= i64::MAX,
                found == completed@.take(j as int).contains(i as i64),
            decreases n - j,
        {
            proof {
                let a = completed@.take(j as int);
                let b = completed@.take(j + 1);
                if a.contains(i as i64) {
                    let k = choose|k: int| 0 <= k < a.len() && a[k] == i as i64;
                    assert(b[k] == i as i64);
                }
                if b.contains(i as i64) {
                    let k = choose|k: int| 0 <= k < b.len() && b[k] == i as i64;
                    if k < j {
                        assert(a[k] == i as i64);
                    }
                }
                assert(b[j as int] == completed@[j as int]);
            }
            if completed[j] == i as i64 {
                found = true;
            }
            j = j + 1;
        }
        assert(completed@.take(n as int) =~= completed@);
        if !found {
            out.push(i);
        }
        i = i + 1;
    }
    out
}

/// A chunk that was ingested before is not ingested again, and every other one is.
pub proof fn law_completed_chunks_are_skipped(total: nat, completed: Seq<i64>, i: usize)
    requires
        total <= i64::MAX,
        total <= usize::MAX,
    ensures
        pending(total, completed).contains(i) <==> i < total && !completed.contains(i as i64),
    decreases total,
{
    if total > 0 {
        let rest = pending((total - 1) as nat, completed);
        law_completed_chunks_are_skipped((total - 1) as nat, completed, i);
        let last = (total - 1) as usize;
        if !completed.contains((total - 1) as i64) {
            assert(rest.push(last).last() == last);
            if rest.contains(i) {
                let k = choose|k: int| 0 <= k < rest.len() && rest[k] == i;
                assert(rest.push(last)[k] == i);
            }
            if rest.push(last).contains(i) && i != last {
                let k = choose|k: int| 0 <= k < rest.push(last).len() && rest.push(last)[k] == i;
                assert(rest[k] == i);
            }
        }
    }
}

/// What came of a chunk.
#[derive(Clone, Copy, Debug, PartialEq, Eq, Structural)]
pub enum ChunkResult {
    /// It was ingested.
    Done,
    /// The model used up its turns, which counts as ingested.
    MaxTurns,
    /// It failed.
    Failed,
}

/// Whether a chunk counts as ingested.
pub fn is_ingested(result: ChunkResult) -> (r: bool)
    ensures
        r == (result != ChunkResult::Failed),
{
    match result {
        ChunkResult::Done => true,
        ChunkResult::MaxTurns => true,
        ChunkResult::Failed => false,
    }
}

/// What is done with a file in the end.
#[derive(Clone, Copy, Debug, PartialEq, Eq, Structural)]
pub struct FileOutcome {
    /// It counts as completed, not as failed.
    pub completed: bool,
    /// The records of its chunks are deleted.
    pub delete_progress: bool,
    /// The file is deleted.
    pub delete_file: bool,
}

/// Decides what is done with a file after its chunks were tried: where all were
/// ingested it is completed, and the file goes with the records of its chunks;
/// else it has failed, and both are kept for the next run.
pub fn finish_file(results: &Vec<ChunkResult>) -> (r: FileOutcome)
    ensures
        r.completed == (forall|i: int|
            0 <= i < results@.len() ==> #[trigger] results@[i] != ChunkResult::Failed),
        r.delete_progress == r.completed,
        r.delete_file == r.completed,
{
    let n: usize = results.len();
    let mut i: usize = 0;
    while i < n
        invariant
            n == results@.len(),
            i <= n,
            forall|j: int| 0 <= j < i ==> #[trigger] results@[j] != ChunkResult::Failed,
        decreases n - i,
    {
        if !is_ingested(results[i]) {
            assert(results@[i as int] == ChunkResult::Failed);
            return FileOutcome { completed: false, delete_progress: false, delete_file: false };
        }
        i = i + 1;
    }
    FileOutcome { completed: true, delete_progress: true, delete_file: true }
}

/// The status under which a file is listed in the end.
pub fn final_status(outcome: FileOutcome) -> (r: &'static str)
    ensures
        r@ == (if outcome.completed {
            "completed"@
        } else {
            "failed"@
        }),
{
    if outcome.completed {
        "completed"
    } else {
        "failed"
    }
}

/// Texts are the files with one of the extensions for notes, markup, data and logs, in
/// any letter case; pictures, sounds, archives and programs are not.
pub proof fn law_extensions_of_texts()
    ensures
        is_text_extension("txt"@) && is_text_extension("md"@) && is_text_extension("markdown"@),
        is_text_extension("json"@) && is_text_extension("jsonl"@) && is_text_extension("csv"@),
        is_text_extension("tsv"@) && is_text_extension("log"@) && is_text_extension("xml"@),
        is_text_extension("yaml"@) && is_text_extension("yml"@) && is_text_extension("toml"@),
        is_text_extension("rst"@) && is_text_extension("org"@) && is_text_extension("html"@),
        is_text_extension("htm"@),
        forall|ext: Seq<char>| #[trigger] is_text_extension(ext) ==> 2 <= ext.len() <= 8,
{
    reveal_strlit("txt");
    reveal_strlit("md");
    reveal_strlit("markdown");
    reveal_strlit("json");
    reveal_strlit("jsonl");
    reveal_strlit("csv");
    reveal_strlit("tsv");
    reveal_strlit("log");
    reveal_strlit("xml");
    reveal_strlit("yaml");
    reveal_strlit("yml");
    reveal_strlit("toml");
    reveal_strlit("rst");
    reveal_strlit("org");
    reveal_strlit("html");
    reveal_strlit("htm");
}

/// A file in a directory is ingested by its name: one whose name starts with a dot is
/// hidden, and stays; a name without an extension is taken for a text; and an extension
/// decides for itself, in whatever case it is written. What is no file stays.
pub proof fn law_files_are_wanted_by_name(
    f: ScannedFile,
    dir: Seq<char>,
    stem: Seq<char>,
    ext: Seq<char>,
)
    requires
        stem.len() > 0,
        !stem.contains('/'),
        !ext.contains('/'),
        !ext.contains('.'),
    ensures
        !f.is_file ==> !is_wanted(f),
        f.is_file && f.path@ == dir + "/"@ + (stem + "."@ + ext) && stem[0] != '.' ==> (is_wanted(f)
            <==> is_text_extension(text::lower(ext))),
        f.is_file && f.path@ == dir + "/"@ + stem && stem[0] != '.' && !stem.contains('.')
            ==> is_wanted(f),
        f.path@ == dir + "/"@ + stem && stem[0] == '.' && stem != "."@ && stem != ".."@
            ==> !is_wanted(f),
{
    reveal_strlit(".");
    reveal_strlit("..");
    let name = stem + "."@ + ext;
    assert(name[0] == stem[0]);
    assert(!name.contains('/')) by {
        if name.contains('/') {
            let k = choose|k: int| 0 <= k < name.len() && name[k] == '/';
            if k < stem.len() {
                assert(stem[k] == '/');
            } else if k == stem.len() {
                assert(name[k] == '.');
            } else {
                assert(ext[k - stem.len() - 1] == '/');
            }
        }
    }
    if stem[0] != '.' {
        assert(name != "."@ && name != ".."@);
        assert(stem != "."@ && stem != ".."@);
    }
    paths::law_file_name_follows_the_last_slash(dir, name);
    paths::law_file_name_follows_the_last_slash(dir, stem);
    paths::law_extension_follows_the_last_dot(stem, ext);
    if !stem.contains('.') {
        paths::law_extension_follows_the_last_dot(stem, stem);
    }
}

/// A file without a time comes before one with a time, and of two with a time the one
/// that was changed first comes first.
pub proof fn law_later_files(a: Timestamp, b: Timestamp)
    ensures
        later(Some(a), None) && !later(None, Some(a)) && !later(None, None),
        later(Some(a), Some(b)) <==> a.secs > b.secs || (a.secs == b.secs && a.nanos > b.nanos),
{
}

/// A line is added to the chunk that is being filled where both fit into the size with a
/// line break between them. Else that chunk is full, and the line starts the next one.
pub proof fn law_chunks_are_filled(lines: Seq<Seq<char>>, line: Seq<char>, size: nat)
    ensures
        with_lines(Seq::empty(), size).0.len() == 0 && with_lines(Seq::empty(), size).1.len() == 0,
        with_lines(lines, size).1.len() == 0 ==> with_lines(lines.push(line), size) == (
            with_lines(lines, size).0,
            line,
        ),
        with_lines(lines, size).1.len() > 0 && text::byte_len(with_lines(lines, size).1)
            + text::byte_len(line) < size ==> with_lines(lines.push(line), size) == (
            with_lines(lines, size).0,
            with_lines(lines, size).1 + "\n"@ + line,
        ),
        with_lines(lines, size).1.len() > 0 && text::byte_len(with_lines(lines, size).1)
            + text::byte_len(line) >= size ==> with_lines(lines.push(line), size) == (
            with_lines(lines, size).0.push(with_lines(lines, size).1),
            line,
        ),
{
    reveal_strlit("\n");
    assert("\n"@ == seq!['\n']);
    assert(lines.push(line).drop_last() == lines);
}

/// The chunks that are still to be ingested stand in order, none twice.
pub proof fn law_chunks_are_taken_up_in_order(total: nat, completed: Seq<i64>, i: int, j: int)
    requires
        total <= i64::MAX,
        total <= usize::MAX,
        0 <= i < j < pending(total, completed).len(),
    ensures
        pending(total, completed)[i] < pending(total, completed)[j],
        pending(total, completed)[j] < total,
    decreases total,
{
    let rest = pending((total - 1) as nat, completed);
    if j < rest.len() {
        law_chunks_are_taken_up_in_order((total - 1) as nat, completed, i, j);
    } else {
        law_completed_chunks_are_skipped((total - 1) as nat, completed, rest[i]);
        assert(rest.contains(rest[i]));
    }
}

/// A file is listed under what follows the last slash of its path.
pub proof fn law_listed_under_its_name(dir: Seq<char>, name: Seq<char>)
    requires
        !name.contains('/'),
        name.len() > 0,
    ensures
        name != "."@ && name != ".."@ ==> known_name(dir + "/"@ + name) == name,
        name == ".."@ ==> known_name(dir + "/"@ + name) == "unknown"@,
{
    paths::law_file_name_follows_the_last_slash(dir, name);
}

} // verus!
