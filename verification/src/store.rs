//! Reading the store: which releases a directory listing shows as
//! installed, and which release the pointer file names.
//!
//! The directory listing is the only record of what is installed. Nothing
//! here touches the disk: callers hand in what they read from it.

use crate::paths::artifact_name;
use crate::text::{texts, to_chars};
use vstd::prelude::*;
use vstd::string::{StrSliceExecFns, StringExecFns};

verus! {

/// Whether a directory entry is named like an installed release.
pub open spec fn is_artifact_name(name: Seq<char>) -> bool {
    "solc-"@.is_prefix_of(name)
}

/// The release that a directory entry named like one holds.
pub open spec fn version_named(name: Seq<char>) -> Seq<char> {
    name.skip("solc-"@.len() as int)
}

/// The releases that a directory listing shows as installed, in the
/// listing's order. Entries that are not named like a release are skipped.
pub open spec fn installed_among(entries: Seq<Seq<char>>) -> Seq<Seq<char>> {
    entries.filter(|name: Seq<char>| is_artifact_name(name)).map_values(
        |name: Seq<char>| version_named(name),
    )
}

/// Whether `c` is white space in the sense of Unicode's `White_Space`
/// property.
pub open spec fn is_whitespace(c: char) -> bool {
    let code = c as u32;
    ||| 0x09 <= code <= 0x0D
    ||| code == 0x20
    ||| code == 0x85
    ||| code == 0xA0
    ||| code == 0x1680
    ||| 0x2000 <= code <= 0x200A
    ||| code == 0x2028
    ||| code == 0x2029
    ||| code == 0x202F
    ||| code == 0x205F
    ||| code == 0x3000
}

/// `s` without the white space at its front.
pub open spec fn trim_start(s: Seq<char>) -> Seq<char>
    decreases s.len(),
{
    if s.len() > 0 && is_whitespace(s.first()) {
        trim_start(s.drop_first())
    } else {
        s
    }
}

/// `s` without the white space at its end.
pub open spec fn trim_end(s: Seq<char>) -> Seq<char>
    decreases s.len(),
{
    if s.len() > 0 && is_whitespace(s.last()) {
        trim_end(s.drop_last())
    } else {
        s
    }
}

/// `s` without the white space at either end.
pub open spec fn trimmed(s: Seq<char>) -> Seq<char> {
    trim_end(trim_start(s))
}

/// Whether `s` neither begins nor ends with white space.
pub open spec fn is_trimmed(s: Seq<char>) -> bool {
    s.len() > 0 ==> !is_whitespace(s.first()) && !is_whitespace(s.last())
}

/// Tells white space from other characters.
pub fn whitespace(c: char) -> (white: bool)
    ensures
        white == is_whitespace(c),
{
    let code: u32 = c as u32;
    (0x09 <= code && code <= 0x0D) || code == 0x20 || code == 0x85 || code == 0xA0 || code
        == 0x1680 || (0x2000 <= code && code <= 0x200A) || code == 0x2028 || code == 0x2029
        || code == 0x202F || code == 0x205F || code == 0x3000
}

/// Reads the release out of a directory entry's name, if the entry is named
/// like an installed release.
pub fn installed_version(name: &str) -> (version: Option<String>)
    ensures
        match version {
            Some(v) => is_artifact_name(name@) && v@ == version_named(name@),
            None => !is_artifact_name(name@),
        },
{
    let prefix = "solc-";
    proof {
        reveal_strlit("solc-");
    }
    let n = name.unicode_len();
    if n < 5 {
        return None;
    }
    let mut i: usize = 0;
    while i < 5
        invariant
            i <= 5 <= n == name@.len(),
            prefix@ == "solc-"@,
            prefix@.len() == 5,
            forall|k: int| 0 <= k < i ==> name@[k] == prefix@[k],
        decreases 5 - i,
    {
        if name.get_char(i) != prefix.get_char(i) {
            assert(name@.subrange(0, 5)[i as int] != prefix@[i as int]);
            return None;
        }
        i += 1;
    }
    assert(name@.subrange(0, 5) =~= prefix@);
    assert(name@.subrange(5, n as int) =~= name@.skip(5));
    Some(String::from_str(name.substring_char(5, n)))
}

/// The releases that a listing of the artifact directory shows as
/// installed.
///
/// `entries` holds the names of the directory's entries. An entry named
/// `solc-<version>` yields `<version>`; every other entry is passed over.
pub fn installed_versions(entries: &Vec<String>) -> (versions: Vec<String>)
    ensures
        texts(versions@) == installed_among(texts(entries@)),
{
    let ghost names = texts(entries@);
    let mut versions: Vec<String> = Vec::new();
    let mut i: usize = 0;
    proof {
        reveal(Seq::filter);
        assert(texts(versions@) =~= installed_among(names.take(0)));
    }
    while i < entries.len()
        invariant
            i <= entries.len(),
            names == texts(entries@),
            texts(versions@) == installed_among(names.take(i as int)),
        decreases entries.len() - i,
    {
        let ghost name = names[i as int];
        proof {
            reveal(Seq::filter);
            assert(names.take(i + 1).drop_last() =~= names.take(i as int));
            assert(names.take(i + 1).last() == name);
        }
        match installed_version(entries[i].as_str()) {
            Some(version) => {
                versions.push(version);
                assert(installed_among(names.take(i + 1)) =~= installed_among(
                    names.take(i as int),
                ).push(version_named(name)));
                assert(texts(versions@) =~= installed_among(names.take(i + 1)));
            },
            None => {
                assert(installed_among(names.take(i + 1)) =~= installed_among(
                    names.take(i as int),
                ));
            },
        }
        i += 1;
    }
    assert(names.take(i as int) =~= names);
    versions
}

/// The release that the pointer file names, given the file's contents: the
/// contents without the white space around them.
pub fn get_current_version(contents: &str) -> (version: String)
    ensures
        version@ == trimmed(contents@),
{
    let chars = to_chars(contents);
    let ghost s = chars@;
    let mut start: usize = 0;
    let mut at_text = false;
    assert(s.skip(0) =~= s);
    while !at_text
        invariant
            start <= chars.len(),
            s == chars@,
            trim_start(s) == trim_start(s.skip(start as int)),
            at_text ==> trim_start(s.skip(start as int)) == s.skip(start as int),
        decreases chars.len() - start + (if at_text { 0int } else { 1int }),
    {
        if start == chars.len() || !whitespace(chars[start]) {
            at_text = true;
        } else {
            assert(s.skip(start as int).drop_first() =~= s.skip(start + 1));
            start += 1;
        }
    }
    let mut end: usize = chars.len();
    let mut at_end = false;
    assert(s.skip(start as int) =~= s.subrange(start as int, end as int));
    while !at_end
        invariant
            start <= end <= chars.len(),
            s == chars@,
            trimmed(s) == trim_end(s.subrange(start as int, end as int)),
            at_end ==> trim_end(s.subrange(start as int, end as int)) == s.subrange(
                start as int,
                end as int,
            ),
        decreases end - start + (if at_end { 0int } else { 1int }),
    {
        if end == start || !whitespace(chars[end - 1]) {
            at_end = true;
        } else {
            assert(s.subrange(start as int, end as int).drop_last() =~= s.subrange(
                start as int,
                end - 1,
            ));
            end -= 1;
        }
    }
    String::from_str(contents.substring_char(start, end))
}

/// The contents never begin or end with white space once trimmed, and
/// trimming a second time changes nothing.
pub proof fn lemma_trimmed_is_trimmed(s: Seq<char>)
    ensures
        is_trimmed(trimmed(s)),
        trimmed(trimmed(s)) == trimmed(s),
{
    lemma_trim_start_ends(s);
    lemma_trim_end_ends(trim_start(s));
    lemma_trim_end_keeps_front(trim_start(s));
    lemma_trim_fixes(trimmed(s));
}

/// An identifier without white space at either end reads back from the
/// pointer file exactly as it was written.
pub proof fn lemma_trim_fixes(s: Seq<char>)
    requires
        is_trimmed(s),
    ensures
        trimmed(s) == s,
{
}

/// After trimming the front, the first character, if any, is no white space.
proof fn lemma_trim_start_ends(s: Seq<char>)
    ensures
        trim_start(s).len() > 0 ==> !is_whitespace(trim_start(s).first()),
    decreases s.len(),
{
    if s.len() > 0 && is_whitespace(s.first()) {
        lemma_trim_start_ends(s.drop_first());
    }
}

/// After trimming the end, the last character, if any, is no white space.
proof fn lemma_trim_end_ends(s: Seq<char>)
    ensures
        trim_end(s).len() > 0 ==> !is_whitespace(trim_end(s).last()),
    decreases s.len(),
{
    if s.len() > 0 && is_whitespace(s.last()) {
        lemma_trim_end_ends(s.drop_last());
    }
}

/// Trimming the end leaves the first character in place.
proof fn lemma_trim_end_keeps_front(s: Seq<char>)
    ensures
        trim_end(s).len() > 0 ==> trim_end(s).first() == s.first(),
    decreases s.len(),
{
    if s.len() > 0 && is_whitespace(s.last()) {
        lemma_trim_end_keeps_front(s.drop_last());
    }
}

/// A release written under its artifact name is read back from that name.
pub proof fn lemma_artifact_name_round_trip(version: Seq<char>)
    ensures
        is_artifact_name(artifact_name(version)),
        version_named(artifact_name(version)) == version,
{
    assert(artifact_name(version).subrange(0, "solc-"@.len() as int) =~= "solc-"@);
    assert(artifact_name(version).skip("solc-"@.len() as int) =~= version);
}

} // verus!
