//! Supported-file classification: mapping a file name's extension,
//! case-insensitively, to the carrier format it denotes. Only the carrier is
//! classified; the secret file is an opaque byte stream.

use crate::text::chars_of;
use vstd::prelude::*;

verus! {

/// Represents a type of file that we support encoding a secret file into:
/// a closed set of lossless carrier formats.
#[derive(Debug, Clone, Copy, PartialEq, Eq, Structural)]
pub enum SupportedFileType {
    Png,
}

/// Whether `a` is the ASCII letter whose lower-case form is `l` — itself or
/// its upper-case variant.
pub open spec fn matches_lower(a: char, l: char) -> bool {
    a as u32 == l as u32 || (65 <= a as u32 <= 90 && a as u32 + 32 == l as u32)
}

/// Whether the name ends in `.png`, the extension letters compared
/// case-insensitively.
pub open spec fn spec_is_png_suffix(s: Seq<char>) -> bool {
    &&& s.len() >= 4
    &&& s[s.len() - 4] == '.'
    &&& matches_lower(s[s.len() - 3], 'p')
    &&& matches_lower(s[s.len() - 2], 'n')
    &&& matches_lower(s[s.len() - 1], 'g')
}

/// What classifying a bare file name yields.
pub open spec fn spec_from_file_name(s: Seq<char>) -> Option<SupportedFileType> {
    if spec_is_png_suffix(s) {
        Some(SupportedFileType::Png)
    } else {
        None
    }
}

/// The position of the last occurrence of `c` in `s`, or `-1` if absent.
pub open spec fn last_index_of(s: Seq<char>, c: char) -> int
    decreases s.len(),
{
    if s.len() == 0 {
        -1
    } else if s[s.len() - 1] == c {
        s.len() - 1
    } else {
        last_index_of(s.drop_last(), c)
    }
}

/// The last occurrence of a character lies in the sequence, or is `-1`.
pub proof fn lemma_last_index_of_range(s: Seq<char>, c: char)
    ensures
        -1 <= last_index_of(s, c) < s.len(),
    decreases s.len(),
{
    if s.len() > 0 && s[s.len() - 1] != c {
        lemma_last_index_of_range(s.drop_last(), c);
    }
}

/// The extension of a path: what follows the last dot of its final
/// component, provided that dot is preceded by at least one character of the
/// component (so a leading-dot name has no extension).
pub open spec fn spec_extension(s: Seq<char>) -> Option<Seq<char>> {
    let dot = last_index_of(s, '.');
    let slash = last_index_of(s, '/');
    if dot > slash + 1 {
        Some(s.subrange(dot + 1, s.len() as int))
    } else {
        None
    }
}

/// Whether an extension spells `png`, case-insensitively.
pub open spec fn spec_is_png_extension(e: Seq<char>) -> bool {
    &&& e.len() == 3
    &&& matches_lower(e[0], 'p')
    &&& matches_lower(e[1], 'n')
    &&& matches_lower(e[2], 'g')
}

/// What classifying a path yields: the format its extension denotes.
pub open spec fn spec_from_file_path(s: Seq<char>) -> Option<SupportedFileType> {
    match spec_extension(s) {
        Some(e) => if spec_is_png_extension(e) {
            Some(SupportedFileType::Png)
        } else {
            None
        },
        None => None,
    }
}

/// Tests whether `a` is the letter `l` or its ASCII upper-case variant.
fn char_matches_lower(a: char, l: char) -> (r: bool)
    ensures
        r == matches_lower(a, l),
{
    let au = a as u32;
    let lu = l as u32;
    au == lu || (65 <= au && au <= 90 && au + 32 == lu)
}

/// Finds the last occurrence of `c` in the characters `v`.
fn find_last(v: &Vec<char>, c: char) -> (r: Option<usize>)
    ensures
        match r {
            Some(i) => i < v@.len() && last_index_of(v@, c) == i as int,
            None => last_index_of(v@, c) == -1,
        },
{
    let mut i = v.len();
    proof {
        assert(v@.take(v@.len() as int) =~= v@);
    }
    while i > 0
        invariant
            i <= v@.len(),
            last_index_of(v@, c) == last_index_of(v@.take(i as int), c),
        decreases i,
    {
        i = i - 1;
        proof {
            assert(v@.take(i as int + 1).drop_last() =~= v@.take(i as int));
            assert(v@.take(i as int + 1).len() == i + 1);
            assert(v@.take(i as int + 1)[i as int] == v@[i as int]);
        }
        if v[i] == c {
            return Some(i);
        }
    }
    None
}

impl SupportedFileType {
    /// Finds the file type from a file's name: the name must end in the
    /// extension, dot included, compared case-insensitively.
    ///
    /// Returns None if the file type is not supported.
    pub fn from_file_name(file_name: String) -> (r: Option<SupportedFileType>)
        ensures
            r == spec_from_file_name(file_name@),
    {
        let v = chars_of(file_name.as_str());
        let n = v.len();
        if n < 4 {
            return None;
        }
        if v[n - 4] == '.' && char_matches_lower(v[n - 3], 'p') && char_matches_lower(v[n - 2], 'n')
            && char_matches_lower(v[n - 1], 'g') {
            Some(SupportedFileType::Png)
        } else {
            None
        }
    }

    /// Finds the file type from a file's path, by its extension.
    ///
    /// Returns None if the file type is not supported.
    pub fn from_file_path(file_path: &str) -> (r: Option<SupportedFileType>)
        ensures
            r == spec_from_file_path(file_path@),
    {
        let v = chars_of(file_path);
        let n = v.len();
        proof {
            lemma_last_index_of_range(v@, '.');
            lemma_last_index_of_range(v@, '/');
        }
        let dot = match find_last(&v, '.') {
            Some(d) => d,
            None => {
                return None;
            },
        };
        let stem_ok = match find_last(&v, '/') {
            Some(s) => dot > s + 1,
            None => dot > 0,
        };
        if !stem_ok {
            return None;
        }
        // The extension is everything after the last dot; `png` has three letters.
        if n - dot - 1 != 3 {
            proof {
                assert(spec_extension(v@) matches Some(e) && e.len() != 3);
            }
            return None;
        }
        proof {
            assert(spec_extension(v@) matches Some(e) && e.len() == 3 && e[0] == v@[dot + 1] && e[1]
                == v@[dot + 2] && e[2] == v@[dot + 3]);
        }
        if char_matches_lower(v[dot + 1], 'p') && char_matches_lower(v[dot + 2], 'n')
            && char_matches_lower(v[dot + 3], 'g') {
            Some(SupportedFileType::Png)
        } else {
            None
        }
    }
}

/// Symmetric case-insensitive equality of two characters: equal, or the same
/// ASCII letter in different cases.
pub open spec fn chars_ci(x: char, y: char) -> bool {
    ||| x as u32 == y as u32
    ||| (65 <= x as u32 <= 90 && x as u32 + 32 == y as u32)
    ||| (65 <= y as u32 <= 90 && y as u32 + 32 == x as u32)
}

/// Case-insensitive equality of two character sequences.
pub open spec fn seq_matches_ci(a: Seq<char>, b: Seq<char>) -> bool {
    a.len() == b.len() && forall|i: int| 0 <= i < a.len() ==> chars_ci(a[i], b[i])
}

/// Whether a character matches an ASCII lower-case letter is untouched by
/// changing the character's own ASCII case.
proof fn lemma_matches_lower_ci(x: char, y: char, l: char)
    requires
        chars_ci(x, y),
        97 <= l as u32 <= 122,
    ensures
        matches_lower(x, l) == matches_lower(y, l),
{
}

/// Idempotent classification: what a path classifies as depends only on its
/// lower-cased extension — two paths whose extensions agree up to ASCII case
/// classify alike, as do two paths without an extension.
pub proof fn lemma_classification_case_insensitive(s1: Seq<char>, s2: Seq<char>)
    requires
        match (spec_extension(s1), spec_extension(s2)) {
            (Some(e1), Some(e2)) => seq_matches_ci(e1, e2),
            (None, None) => true,
            _ => false,
        },
    ensures
        spec_from_file_path(s1) == spec_from_file_path(s2),
{
    if spec_extension(s1) is Some {
        let e1 = spec_extension(s1)->Some_0;
        let e2 = spec_extension(s2)->Some_0;
        if e1.len() == 3 {
            assert(chars_ci(e1[0], e2[0]));
            assert(chars_ci(e1[1], e2[1]));
            assert(chars_ci(e1[2], e2[2]));
            lemma_matches_lower_ci(e1[0], e2[0], 'p');
            lemma_matches_lower_ci(e1[1], e2[1], 'n');
            lemma_matches_lower_ci(e1[2], e2[2], 'g');
        }
    }
}

} // verus!
