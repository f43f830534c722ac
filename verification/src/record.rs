//! The snapshot entity: a canonical path plus an optional content digest,
//! with its one-line serialized form and the parser that reads it back.

use vstd::prelude::*;

verus! {

/// One entry of a snapshot: a canonicalized absolute path and the content
/// digest of the file, or `None` when the file could not be hashed.
#[derive(Clone, Debug)]
pub struct FileData {
    pub path: String,
    pub hash: Option<String>,
}

/// What the digest column of a serialized record holds.
pub open spec fn spec_hash_column(hash: Option<String>) -> Seq<char> {
    match hash {
        Some(h) => h@,
        None => "None"@,
    }
}

/// The views of an optional digest, for contracts.
pub open spec fn hash_view(hash: Option<String>) -> Option<Seq<char>> {
    match hash {
        Some(h) => Some(h@),
        None => None,
    }
}

/// The mathematical shadow of a record: the path's characters and the digest
/// column's characters, if any.
pub struct RecordV {
    pub path: Seq<char>,
    pub hash: Option<Seq<char>>,
}

impl DeepView for FileData {
    type V = RecordV;

    open spec fn deep_view(&self) -> RecordV {
        RecordV { path: self.path@, hash: hash_view(self.hash) }
    }
}

/// The smallest index at or after `from` holding `c`, if any.
pub open spec fn find_char(s: Seq<char>, c: char, from: int) -> Option<int>
    decreases s.len() - from,
{
    if from < 0 || from >= s.len() {
        None
    } else if s[from] == c {
        Some(from)
    } else {
        find_char(s, c, from + 1)
    }
}

/// What `find_char` returns when it finds something: an occurrence of `c`,
/// with none before it.
pub proof fn lemma_find_char_props(s: Seq<char>, c: char, from: int)
    requires
        0 <= from,
    ensures
        match find_char(s, c, from) {
            Some(i) => from <= i < s.len() && s[i] == c && (forall|j: int|
                from <= j < i ==> s[j] != c),
            None => forall|j: int| from <= j < s.len() ==> s[j] != c,
        },
    decreases s.len() - from,
{
    if from < s.len() && s[from] != c {
        lemma_find_char_props(s, c, from + 1);
    }
}

/// An occurrence with nothing before it is what `find_char` returns.
pub proof fn lemma_find_char_exact(s: Seq<char>, c: char, from: int, i: int)
    requires
        0 <= from <= i < s.len(),
        s[i] == c,
        forall|j: int| from <= j < i ==> s[j] != c,
    ensures
        find_char(s, c, from) == Some(i),
    decreases i - from,
{
    if from < i {
        lemma_find_char_exact(s, c, from + 1, i);
    }
}

/// The Unicode `White_Space` property, as `char::is_whitespace` has it: the
/// ASCII whitespace controls and space, next line, no-break space, ogham
/// space mark, the en-quad..hair-space range, the line and paragraph
/// separators, narrow no-break space, medium mathematical space, and
/// ideographic space.
pub open spec fn spec_is_whitespace(c: char) -> bool {
    ||| c == '\u{0009}'
    ||| c == '\u{000A}'
    ||| c == '\u{000B}'
    ||| c == '\u{000C}'
    ||| c == '\u{000D}'
    ||| c == '\u{0020}'
    ||| c == '\u{0085}'
    ||| c == '\u{00A0}'
    ||| c == '\u{1680}'
    ||| ('\u{2000}' <= c && c <= '\u{200A}')
    ||| c == '\u{2028}'
    ||| c == '\u{2029}'
    ||| c == '\u{202F}'
    ||| c == '\u{205F}'
    ||| c == '\u{3000}'
}

/// A sequence without its leading whitespace.
pub open spec fn spec_trim_start(s: Seq<char>) -> Seq<char>
    decreases s.len(),
{
    if s.len() > 0 && spec_is_whitespace(s.first()) {
        spec_trim_start(s.drop_first())
    } else {
        s
    }
}

/// A sequence without its trailing whitespace.
pub open spec fn spec_trim_end(s: Seq<char>) -> Seq<char>
    decreases s.len(),
{
    if s.len() > 0 && spec_is_whitespace(s.last()) {
        spec_trim_end(s.drop_last())
    } else {
        s
    }
}

/// A sequence without its leading and trailing whitespace: what `str::trim`
/// leaves.
pub open spec fn spec_trim(s: Seq<char>) -> Seq<char> {
    spec_trim_end(spec_trim_start(s))
}

/// Trimming only removes: the result is never longer, and one of full
/// length is the sequence itself.
pub proof fn lemma_trim_start_shrinks(s: Seq<char>)
    ensures
        spec_trim_start(s).len() <= s.len(),
        spec_trim_start(s).len() == s.len() ==> spec_trim_start(s) == s,
    decreases s.len(),
{
    if s.len() > 0 && spec_is_whitespace(s.first()) {
        lemma_trim_start_shrinks(s.drop_first());
    }
}

/// Trimming only removes: the result is never longer, and one of full
/// length is the sequence itself.
pub proof fn lemma_trim_end_shrinks(s: Seq<char>)
    ensures
        spec_trim_end(s).len() <= s.len(),
        spec_trim_end(s).len() == s.len() ==> spec_trim_end(s) == s,
    decreases s.len(),
{
    if s.len() > 0 && spec_is_whitespace(s.last()) {
        lemma_trim_end_shrinks(s.drop_last());
    }
}

/// A whitespace-free-at-both-ends sequence, with one newline appended,
/// trims back to itself.
pub proof fn lemma_trim_appended_newline(h: Seq<char>)
    requires
        spec_trim(h) == h,
    ensures
        spec_trim(h + seq!['\n']) == h,
{
    let s = h + seq!['\n'];
    lemma_trim_start_shrinks(h);
    lemma_trim_end_shrinks(spec_trim_start(h));
    assert(spec_trim_start(h) == h);
    assert(spec_trim_end(h) == h);
    if h.len() == 0 {
        assert(s =~= seq!['\n']);
        assert(spec_is_whitespace('\n'));
        assert(seq!['\n'].drop_first() =~= Seq::<char>::empty());
        assert(spec_trim_start(Seq::<char>::empty()) == Seq::<char>::empty());
        assert(spec_trim_start(s) == Seq::<char>::empty());
        assert(spec_trim_end(Seq::<char>::empty()) == Seq::<char>::empty());
    } else {
        assert(s.first() == h.first());
        if spec_is_whitespace(h.first()) {
            lemma_trim_start_shrinks(h.drop_first());
            assert(spec_trim_start(h) == spec_trim_start(h.drop_first()));
            assert(false);
        }
        assert(!spec_is_whitespace(s.first()));
        assert(spec_trim_start(s) == s);
        assert(s.last() == '\n');
        assert(spec_is_whitespace(s.last()));
        assert(s.drop_last() =~= h);
        assert(spec_trim_end(s) == spec_trim_end(h));
    }
}

/// Relies on str::trim: the characters with leading and trailing Unicode
/// whitespace removed.
#[verifier::external_body]
fn trim(s: &str) -> (r: String)
    ensures
        r@ == spec_trim(s@),
{
    s.trim().to_string()
}

/// The record parsed from one snapshot line, if the line holds one: `None`
/// for the empty end-of-data line; otherwise the text before the first comma
/// is the path, and the field between the first comma and the second comma
/// (or the line's end), with its surrounding whitespace (the line's own
/// newline included) trimmed away, is the digest column — the text `None`
/// marks an absent digest, anything else is the digest itself.
pub open spec fn spec_parse_filedata(line: Seq<char>) -> Option<(Seq<char>, Option<Seq<char>>)> {
    if line.len() == 0 {
        None
    } else {
        let c1 = find_char(line, ',', 0)->Some_0;
        let end2 = match find_char(line, ',', c1 + 1) {
            Some(i) => i,
            None => line.len() as int,
        };
        let second = spec_trim(line.subrange(c1 + 1, end2));
        Some(
            (
                line.subrange(0, c1),
                if second == "None"@ {
                    None
                } else {
                    Some(second)
                },
            ),
        )
    }
}

impl FileData {
    /// Builds a record from already-gathered plain values.
    pub fn new(path: String, hash: Option<String>) -> (r: FileData)
        ensures
            r.path == path,
            r.hash == hash,
    {
        FileData { path, hash }
    }

    /// The digest column as written to a snapshot line: the digest itself,
    /// or the literal text `None` when hashing failed.
    pub fn print_hash(&self) -> (r: &str)
        ensures
            r@ == spec_hash_column(self.hash),
    {
        match &self.hash {
            Some(hash) => hash.as_str(),
            None => "None",
        }
    }

    /// One snapshot line (without its newline): the path, a comma, and the
    /// digest column.
    pub fn to_string(&self) -> (r: String)
        ensures
            r@ == self.path@ + ","@ + spec_hash_column(self.hash),
    {
        let mut r = String::new();
        r.append(self.path.as_str());
        r.append(",");
        r.append(self.print_hash());
        r
    }

    /// The snapshot artifact's lines, ready to be written out: the given
    /// capture instant, the column header, then one line per record, in the
    /// records' order.
    pub fn to_lines(file_data: &Vec<FileData>, now: crate::timefmt::Timestamp) -> (r: Vec<String>)
        ensures
            r.deep_view().len() == file_data@.len() + 2,
            r.deep_view()[0] == crate::timefmt::spec_format_utc(now.secs, now.nanos),
            r.deep_view()[1] == "path,hash"@,
            forall|i: int|
                0 <= i < file_data@.len() ==> r.deep_view()[i + 2] == file_data@[i].path@ + ","@
                    + spec_hash_column(file_data@[i].hash),
    {
        let mut r: Vec<String> = Vec::new();
        let stamp = crate::timefmt::format_utc_time(now.secs, now.nanos);
        let ghost stampv = stamp@;
        r.push(stamp);
        r.push(String::from_str("path,hash"));
        proof {
            assert(r.deep_view()[0] == stampv);
        }
        let mut i: usize = 0;
        while i < file_data.len()
            invariant
                i <= file_data@.len(),
                r.deep_view().len() == i + 2,
                r.deep_view()[0] == stampv,
                stampv == crate::timefmt::spec_format_utc(now.secs, now.nanos),
                r.deep_view()[1] == "path,hash"@,
                forall|k: int|
                    0 <= k < i ==> r.deep_view()[k + 2] == file_data@[k].path@ + ","@
                        + spec_hash_column(file_data@[k].hash),
            decreases file_data@.len() - i,
        {
            let ghost rpre = r.deep_view();
            let line = file_data[i].to_string();
            let ghost linev = line@;
            r.push(line);
            proof {
                assert(r.deep_view() =~= rpre.push(linev));
            }
            i = i + 1;
        }
        r
    }

    /// Parses one line of a snapshot body back into a record. An empty line
    /// signals the end of the data. A nonempty line must hold the comma that
    /// separates the path from the digest column.
    pub fn parse_filedata(line: &str) -> (r: Option<FileData>)
        requires
            line@.len() > 0 ==> find_char(line@, ',', 0) is Some,
        ensures
            match r {
                None => line@.len() == 0,
                Some(fd) => spec_parse_filedata(line@) == Some((fd.path@, hash_view(fd.hash))),
            },
    {
        let len = line.unicode_len();
        if len == 0 {
            return None;
        }
        proof {
            lemma_find_char_props(line@, ',', 0);
        }
        let ghost c1 = find_char(line@, ',', 0)->Some_0;
        let mut i: usize = 0;
        while line.get_char(i) != ','
            invariant
                0 <= i <= c1,
                c1 < line@.len(),
                line@[c1 as int] == ',',
                forall|j: int| 0 <= j < c1 ==> line@[j] != ',',
                len == line@.len(),
            decreases c1 - i,
        {
            i = i + 1;
        }
        proof {
            assert(i == c1);
            lemma_find_char_props(line@, ',', i + 1);
        }
        let mut j: usize = i + 1;
        while j < len && line.get_char(j) != ','
            invariant
                i + 1 <= j <= len,
                len == line@.len(),
                forall|t: int| i + 1 <= t < j ==> line@[t] != ',',
            decreases len - j,
        {
            j = j + 1;
        }
        proof {
            if j < len {
                lemma_find_char_exact(line@, ',', i + 1, j as int);
            }
            assert(find_char(line@, ',', i + 1) == if j < len {
                Some(j as int)
            } else {
                None::<int>
            });
        }
        let path = String::from_str(line.substring_char(0, i));
        let second = trim(line.substring_char(i + 1, j));
        let hash = if matches!(
            crate::order::str_cmp(second.as_str(), "None"),
            crate::order::PathOrder::Eq,
        ) {
            None
        } else {
            Some(second)
        };
        Some(FileData { path, hash })
    }
}

} // verus!
