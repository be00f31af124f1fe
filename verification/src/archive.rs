//! Names of rotated files: where the timestamp goes into a path, and what a
//! timestamp looks like.

use vstd::prelude::*;
use vstd::string::*;

verus! {

/// The index of the last `c` in `s`, or -1 where `s` holds none.
pub open spec fn last_index_of(s: Seq<char>, c: char) -> int
    decreases s.len(),
{
    if s.len() == 0 {
        -1
    } else if s.last() == c {
        s.len() - 1
    } else {
        last_index_of(s.drop_last(), c)
    }
}

/// `last_index_of` names an occurrence of `c` after which no other comes.
pub proof fn lemma_last_index_of(s: Seq<char>, c: char)
    ensures
        -1 <= last_index_of(s, c) < s.len(),
        last_index_of(s, c) >= 0 ==> s[last_index_of(s, c)] == c,
        forall|j: int| last_index_of(s, c) < j < s.len() ==> s[j] != c,
    decreases s.len(),
{
    if s.len() > 0 && s.last() != c {
        let front = s.drop_last();
        lemma_last_index_of(front, c);
        assert forall|j: int| last_index_of(s, c) < j < s.len() implies s[j] != c by {
            if j < front.len() {
                assert(front[j] == s[j]);
            }
        }
    }
}

/// An index after which no `c` comes, and which holds `c` unless it is -1,
/// is the one `last_index_of` names.
pub proof fn lemma_last_index_is(s: Seq<char>, c: char, i: int)
    requires
        -1 <= i < s.len(),
        i >= 0 ==> s[i] == c,
        forall|j: int| i < j < s.len() ==> s[j] != c,
    ensures
        last_index_of(s, c) == i,
    decreases s.len(),
{
    if s.len() > 0 && s.last() != c {
        lemma_last_index_is(s.drop_last(), c, i);
    }
}

/// Where the file name of `path` begins: after the last `/`.
pub open spec fn file_name_start(path: Seq<char>) -> int {
    last_index_of(path, '/') + 1
}

/// Where the dot before the extension of `path` stands. It is meaningful
/// where `has_extension(path)` holds.
pub open spec fn extension_dot(path: Seq<char>) -> int {
    last_index_of(path, '.')
}

/// Whether `path` ends in a file name with an extension: a last component
/// with a dot that is not its first character and not its last.
pub open spec fn has_extension(path: Seq<char>) -> bool {
    file_name_start(path) < extension_dot(path) < path.len() - 1
}

/// The directory part of `path`, with its final `/`.
pub open spec fn directory(path: Seq<char>) -> Seq<char> {
    path.subrange(0, file_name_start(path))
}

/// The file name of `path` without its extension.
pub open spec fn stem(path: Seq<char>) -> Seq<char> {
    path.subrange(file_name_start(path), extension_dot(path))
}

/// The extension of `path`, without the dot.
pub open spec fn extension(path: Seq<char>) -> Seq<char> {
    path.subrange(extension_dot(path) + 1, path.len() as int)
}

/// The name under which the file at `path` is archived: `stamp` goes
/// between the stem and the dot of the extension.
pub open spec fn archive_name(path: Seq<char>, stamp: Seq<char>) -> Seq<char> {
    path.subrange(0, extension_dot(path)) + stamp + path.subrange(
        extension_dot(path),
        path.len() as int,
    )
}

/// The extension that marks a compressed archive, with its dot.
pub open spec fn compression_suffix() -> Seq<char> {
    seq!['.', 'g', 'z']
}

/// The name of the compressed form of the archive `archive`.
pub open spec fn compressed_name(archive: Seq<char>) -> Seq<char> {
    archive + compression_suffix()
}

pub open spec fn is_digit(c: char) -> bool {
    '0' <= c <= '9'
}

pub open spec fn all_digits(s: Seq<char>) -> bool {
    forall|i: int| 0 <= i < s.len() ==> is_digit(#[trigger] s[i])
}

/// A year as it is written in a timestamp: four digits, or a sign and at
/// least four digits where four digits cannot hold it.
pub open spec fn is_year(y: Seq<char>) -> bool {
    ||| y.len() == 4 && all_digits(y)
    ||| y.len() >= 5 && (y[0] == '+' || y[0] == '-') && all_digits(y.subrange(1, y.len() as int))
}

/// The part of a timestamp after the year: `-MM-DD_HH-MM-SS`.
pub open spec fn is_month_to_second(t: Seq<char>) -> bool {
    &&& t.len() == 15
    &&& t[0] == '-' && is_digit(t[1]) && is_digit(t[2])
    &&& t[3] == '-' && is_digit(t[4]) && is_digit(t[5])
    &&& t[6] == '_' && is_digit(t[7]) && is_digit(t[8])
    &&& t[9] == '-' && is_digit(t[10]) && is_digit(t[11])
    &&& t[12] == '-' && is_digit(t[13]) && is_digit(t[14])
}

/// A well-formed timestamp suffix: `-YYYY-MM-DD_HH-MM-SS`.
pub open spec fn is_timestamp_suffix(s: Seq<char>) -> bool {
    &&& s.len() >= 20
    &&& s[0] == '-'
    &&& is_year(s.subrange(1, s.len() - 15))
    &&& is_month_to_second(s.subrange(s.len() - 15, s.len() as int))
}

/// Whether `c` is a decimal digit.
pub fn is_decimal_digit(c: char) -> (yes: bool)
    ensures
        yes == is_digit(c),
{
    '0' <= c && c <= '9'
}

/// Whether `stamp` is a well-formed timestamp suffix.
pub fn is_timestamp(stamp: &str) -> (yes: bool)
    ensures
        yes == is_timestamp_suffix(stamp@),
{
    let len = stamp.unicode_len();
    if len < 20 {
        return false;
    }
    if stamp.get_char(0) != '-' {
        return false;
    }
    let split: usize = len - 15;
    let ghost year = stamp@.subrange(1, split as int);
    let mut i: usize = 1;
    if split > 5 {
        let sign = stamp.get_char(1);
        assert(year[0] == sign);
        if sign != '+' && sign != '-' {
            return false;
        }
        i = 2;
    }
    let first: usize = i;
    while i < split
        invariant
            1 <= first <= i <= split,
            split == len - 15,
            len == stamp@.len(),
            year == stamp@.subrange(1, split as int),
            first == 1 && split == 5 || first == 2 && split > 5 && (stamp@[1] == '+' || stamp@[1]
                == '-'),
            forall|j: int| first <= j < i ==> is_digit(stamp@[j]),
        decreases split - i,
    {
        if !is_decimal_digit(stamp.get_char(i)) {
            proof {
                assert(year[i - 1] == stamp@[i as int]);
                if first == 2 {
                    assert(year.subrange(1, year.len() as int)[i - 2] == stamp@[i as int]);
                }
            }
            return false;
        }
        i = i + 1;
    }
    proof {
        if first == 1 {
            assert forall|j: int| 0 <= j < year.len() implies is_digit(#[trigger] year[j]) by {
                assert(year[j] == stamp@[j + 1]);
            }
        } else {
            let digits = year.subrange(1, year.len() as int);
            assert forall|j: int| 0 <= j < digits.len() implies is_digit(
                #[trigger] digits[j],
            ) by {
                assert(digits[j] == stamp@[j + 2]);
            }
            assert(year[0] == stamp@[1]);
        }
        assert(is_year(year));
        let rest = stamp@.subrange(split as int, len as int);
        assert forall|j: int| 0 <= j < 15 implies rest[j] == stamp@[split + j] by {}
    }
    stamp.get_char(split) == '-' && is_decimal_digit(stamp.get_char(split + 1))
        && is_decimal_digit(stamp.get_char(split + 2)) && stamp.get_char(split + 3) == '-'
        && is_decimal_digit(stamp.get_char(split + 4)) && is_decimal_digit(
        stamp.get_char(split + 5),
    ) && stamp.get_char(split + 6) == '_' && is_decimal_digit(stamp.get_char(split + 7))
        && is_decimal_digit(stamp.get_char(split + 8)) && stamp.get_char(split + 9) == '-'
        && is_decimal_digit(stamp.get_char(split + 10)) && is_decimal_digit(
        stamp.get_char(split + 11),
    ) && stamp.get_char(split + 12) == '-' && is_decimal_digit(stamp.get_char(split + 13))
        && is_decimal_digit(stamp.get_char(split + 14))
}

/// Finds the last `c` in `s`.
pub fn rfind(s: &str, c: char) -> (found: Option<usize>)
    ensures
        match found {
            Some(i) => i == last_index_of(s@, c),
            None => last_index_of(s@, c) == -1,
        },
{
    let len = s.unicode_len();
    let mut i: usize = len;
    while i > 0
        invariant
            i <= len,
            len == s@.len(),
            forall|j: int| i <= j < len ==> s@[j] != c,
        decreases i,
    {
        i = i - 1;
        if s.get_char(i) == c {
            proof {
                lemma_last_index_is(s@, c, i as int);
            }
            return Some(i);
        }
    }
    proof {
        lemma_last_index_is(s@, c, -1);
    }
    None
}

/// Where the dot before the extension of `path` stands, if `path` ends in a
/// file name with an extension.
pub fn find_extension(path: &str) -> (dot: Option<usize>)
    ensures
        dot is Some <==> has_extension(path@),
        dot matches Some(i) ==> i == extension_dot(path@),
{
    let len = path.unicode_len();
    let start: usize = match rfind(path, '/') {
        Some(i) => {
            proof {
                lemma_last_index_of(path@, '/');
            }
            i + 1
        },
        None => 0,
    };
    match rfind(path, '.') {
        Some(i) => {
            proof {
                lemma_last_index_of(path@, '.');
            }
            if start < i && i < len - 1 {
                Some(i)
            } else {
                None
            }
        },
        None => None,
    }
}

/// Whether `path` ends in a file name with an extension.
pub fn has_file_extension(path: &str) -> (yes: bool)
    ensures
        yes == has_extension(path@),
{
    find_extension(path).is_some()
}

/// A path that ends in a file name with an extension: the logical path of
/// a writer, which a timestamp can be put into. It is its text; the place
/// of the dot before the extension is kept beside the text and fixed by it.
pub struct LogicalPath {
    text: String,
    dot: usize,
}

impl View for LogicalPath {
    type V = Seq<char>;

    closed spec fn view(&self) -> Seq<char> {
        self.text@
    }
}

impl LogicalPath {
    #[verifier::type_invariant]
    spec fn well_formed(self) -> bool {
        has_extension(self.text@) && self.dot == extension_dot(self.text@)
    }

    /// `path` as a logical path, or `None` where it does not end in a file
    /// name with an extension.
    pub fn new(path: &str) -> (logical: Option<LogicalPath>)
        ensures
            logical is Some <==> has_extension(path@),
            logical matches Some(p) ==> p@ == path@,
    {
        match find_extension(path) {
            Some(dot) => Some(LogicalPath { text: String::from_str(path), dot }),
            None => None,
        }
    }

    /// The path as text.
    pub fn as_str(&self) -> (path: &str)
        ensures
            path@ == self@,
            has_extension(path@),
    {
        proof {
            use_type_invariant(self);
        }
        self.text.as_str()
    }

    /// A second value of the same path.
    pub fn duplicate(&self) -> (copy: LogicalPath)
        ensures
            copy@ == self@,
    {
        proof {
            use_type_invariant(self);
        }
        LogicalPath { text: self.text.clone(), dot: self.dot }
    }

    /// The name under which the file at this path is archived with the
    /// timestamp `stamp`.
    pub fn archive(&self, stamp: &str) -> (name: String)
        ensures
            name@ == archive_name(self@, stamp@),
    {
        proof {
            use_type_invariant(self);
        }
        let path = self.text.as_str();
        let len = path.unicode_len();
        let name = String::from_str(path.substring_char(0, self.dot));
        let name = name.concat(stamp);
        name.concat(path.substring_char(self.dot, len))
    }
}

/// The name under which the file at `path` is archived with the timestamp
/// `stamp`, or `None` where `path` has no file name with an extension.
pub fn rotate_dest(path: &str, stamp: &str) -> (dest: Option<String>)
    ensures
        dest is Some <==> has_extension(path@),
        dest matches Some(name) ==> name@ == archive_name(path@, stamp@),
{
    match LogicalPath::new(path) {
        Some(logical) => Some(logical.archive(stamp)),
        None => None,
    }
}

/// The name of the compressed form of the archive `archive`.
pub fn compressed_dest(archive: &str) -> (dest: String)
    ensures
        dest@ == compressed_name(archive@),
{
    proof {
        reveal_strlit(".gz");
        assert(".gz"@ =~= compression_suffix());
    }
    String::from_str(archive).concat(".gz")
}

/// A timestamp holds neither a dot nor a slash.
pub proof fn lemma_timestamp_has_no_separator(stamp: Seq<char>)
    requires
        is_timestamp_suffix(stamp),
    ensures
        forall|i: int| 0 <= i < stamp.len() ==> stamp[i] != '.' && stamp[i] != '/',
{
    let n = stamp.len() as int;
    let year = stamp.subrange(1, n - 15);
    let rest = stamp.subrange(n - 15, n);
    assert forall|i: int| 0 <= i < n implies stamp[i] != '.' && stamp[i] != '/' by {
        if i == 0 {
        } else if i < n - 15 {
            assert(stamp[i] == year[i - 1]);
            if year.len() == 4 && all_digits(year) {
                assert(is_digit(year[i - 1]));
            } else {
                if i > 1 {
                    let digits = year.subrange(1, year.len() as int);
                    assert(year[i - 1] == digits[i - 2]);
                    assert(is_digit(digits[i - 2]));
                }
            }
        } else {
            assert(stamp[i] == rest[i - (n - 15)]);
        }
    }
}

/// The archived file's name keeps the directory and the extension of the
/// path it was rotated from, and holds a well-formed timestamp between the
/// stem and the extension; the compressed archive's name is that name with
/// the compression suffix behind it.
pub proof fn lemma_archive_name_keeps_extension(path: Seq<char>, stamp: Seq<char>)
    requires
        has_extension(path),
        is_timestamp_suffix(stamp),
    ensures
        has_extension(archive_name(path, stamp)),
        directory(archive_name(path, stamp)) == directory(path),
        stem(archive_name(path, stamp)) == stem(path) + stamp,
        extension(archive_name(path, stamp)) == extension(path),
        archive_name(path, stamp) == directory(path) + stem(path) + stamp + seq!['.'] + extension(
            path,
        ),
        compressed_name(archive_name(path, stamp)) == archive_name(path, stamp) + seq![
            '.',
            'g',
            'z',
        ],
        extension(compressed_name(archive_name(path, stamp))) == seq!['g', 'z'],
        stem(compressed_name(archive_name(path, stamp))) == stem(path) + stamp + seq!['.']
            + extension(path),
{
    let dot = extension_dot(path);
    let start = file_name_start(path);
    let name = archive_name(path, stamp);
    let k = stamp.len() as int;
    lemma_last_index_of(path, '.');
    lemma_last_index_of(path, '/');
    lemma_timestamp_has_no_separator(stamp);
    assert(name.len() == path.len() + k);
    assert forall|j: int| 0 <= j < name.len() implies name[j] == (if j < dot {
        path[j]
    } else if j < dot + k {
        stamp[j - dot]
    } else {
        path[j - k]
    }) by {}
    lemma_last_index_is(name, '.', dot + k);
    lemma_last_index_is(name, '/', start - 1);
    assert(directory(name) =~= directory(path));
    assert(stem(name) =~= stem(path) + stamp);
    assert(extension(name) =~= extension(path));
    assert(name =~= directory(path) + stem(path) + stamp + seq!['.'] + extension(path));

    let packed = compressed_name(name);
    let m = name.len() as int;
    assert(packed.len() == m + 3);
    assert forall|j: int| 0 <= j < packed.len() implies packed[j] == (if j < m {
        name[j]
    } else if j == m {
        '.'
    } else if j == m + 1 {
        'g'
    } else {
        'z'
    }) by {}
    lemma_last_index_is(packed, '.', m);
    lemma_last_index_is(packed, '/', start - 1);
    assert(extension(packed) =~= seq!['g', 'z']);
    assert(stem(packed) =~= stem(path) + stamp + seq!['.'] + extension(path));
}

} // verus!
