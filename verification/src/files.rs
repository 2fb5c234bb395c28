//! Image-file logic: the case-insensitive extension allow-list, MIME
//! resolution, directory validation, and the sorted listing of a
//! directory's image names.

use vstd::prelude::*;

verus! {

use vstd::string::StrSliceExecFns;
use vstd::string::StringExecFns;
use crate::text::{names_of, sort_names, sorted_names};

/// One directory entry as the file system reported it: its UTF-8 name
/// and whether it is a regular file.
pub struct DirEntry {
    pub name: String,
    pub is_file: bool,
}

/// Why a path was rejected, with the message surfaced to the caller.
pub enum AppError {
    /// The path could not be inspected, or exists but is not a
    /// directory.
    InvalidPath(String),
    /// The directory's entries could not be read.
    IoError(String),
    /// A directory supplied at startup held no recognized image.
    EmptyDirectory(String),
}

impl AppError {
    /// The description carried by the error.
    pub open spec fn message_spec(&self) -> Seq<char> {
        match self {
            AppError::InvalidPath(m) => m@,
            AppError::IoError(m) => m@,
            AppError::EmptyDirectory(m) => m@,
        }
    }

    /// Surrenders the error's description.
    pub fn into_message(self) -> (r: String)
        ensures
            r@ == self.message_spec(),
    {
        match self {
            AppError::InvalidPath(m) => m,
            AppError::IoError(m) => m,
            AppError::EmptyDirectory(m) => m,
        }
    }
}

/// The code point of a character with an ASCII upper-case letter
/// mapped to its lower-case counterpart.
pub open spec fn lower_code(c: char) -> int {
    if 65 <= c as u32 && c as u32 <= 90 {
        c as u32 + 32
    } else {
        c as u32 as int
    }
}

/// Character sequences equal up to ASCII case.
pub open spec fn ci_eq(a: Seq<char>, b: Seq<char>) -> bool {
    a.len() == b.len() && forall|i: int| 0 <= i < a.len() ==> lower_code(a[i]) == lower_code(b[i])
}

/// The index of the last `'.'` in the name, or -1 when it has none.
pub open spec fn last_dot(s: Seq<char>) -> int
    decreases s.len(),
{
    if s.len() == 0 {
        -1
    } else if s.last() == '.' {
        s.len() - 1
    } else {
        last_dot(s.drop_last())
    }
}

proof fn lemma_last_dot_range(s: Seq<char>)
    ensures
        -1 <= last_dot(s) < s.len(),
    decreases s.len(),
{
    if s.len() > 0 && s.last() != '.' {
        lemma_last_dot_range(s.drop_last());
    }
}

/// A name's extension: what follows its last `'.'`; a name without a
/// dot, or whose only dot leads it, has none.
pub open spec fn extension_of(s: Seq<char>) -> Option<Seq<char>> {
    if last_dot(s) <= 0 {
        None
    } else {
        Some(s.subrange(last_dot(s) + 1, s.len() as int))
    }
}

/// The recognized image extensions, compared regardless of ASCII case.
pub open spec fn is_image_ext(e: Seq<char>) -> bool {
    ||| ci_eq(e, seq!['p', 'n', 'g'])
    ||| ci_eq(e, seq!['j', 'p', 'g'])
    ||| ci_eq(e, seq!['j', 'p', 'e', 'g'])
    ||| ci_eq(e, seq!['w', 'e', 'b', 'p'])
}

/// A name the Image Lister recognizes: its extension is on the
/// allow-list.
pub open spec fn is_image_name(s: Seq<char>) -> bool {
    match extension_of(s) {
        Some(e) => is_image_ext(e),
        None => false,
    }
}

fn char_lower_eq(a: char, b: char) -> (r: bool)
    ensures
        r == (lower_code(a) == lower_code(b)),
{
    let au: u32 = a as u32;
    let bu: u32 = b as u32;
    let al: u32 = if 65 <= au && au <= 90 {
        au + 32
    } else {
        au
    };
    let bl: u32 = if 65 <= bu && bu <= 90 {
        bu + 32
    } else {
        bu
    };
    al == bl
}

fn find_last_dot(s: &str) -> (r: Option<usize>)
    ensures
        (r is Some) <==> last_dot(s@) >= 0,
        r matches Some(d) ==> d as int == last_dot(s@),
{
    let n: usize = s.unicode_len();
    proof {
        assert(s@.subrange(0, n as int) =~= s@);
    }
    let mut j: usize = n;
    while j > 0
        invariant
            0 <= j <= n,
            n == s@.len(),
            last_dot(s@) == last_dot(s@.subrange(0, j as int)),
        decreases j,
    {
        let c = s.get_char(j - 1);
        proof {
            let t = s@.subrange(0, j as int);
            assert(t.last() == s@[j - 1]);
            assert(t.drop_last() =~= s@.subrange(0, j - 1));
        }
        if c == '.' {
            return Some(j - 1);
        }
        j = j - 1;
    }
    proof {
        assert(s@.subrange(0, 0).len() == 0);
    }
    None
}

fn ext_eq3(e: &str, c0: char, c1: char, c2: char) -> (r: bool)
    ensures
        r == ci_eq(e@, seq![c0, c1, c2]),
{
    let n: usize = e.unicode_len();
    if n != 3 {
        return false;
    }
    let r0 = char_lower_eq(e.get_char(0), c0);
    let r1 = char_lower_eq(e.get_char(1), c1);
    let r2 = char_lower_eq(e.get_char(2), c2);
    proof {
        let p = seq![c0, c1, c2];
        assert(p[0] == c0 && p[1] == c1 && p[2] == c2);
        if r0 && r1 && r2 {
            assert forall|i: int| 0 <= i < e@.len() implies lower_code(e@[i]) == lower_code(
                p[i],
            ) by {
                if i == 0 {
                } else if i == 1 {
                } else {
                    assert(i == 2);
                }
            }
            assert(ci_eq(e@, p));
        } else {
            assert(!ci_eq(e@, p));
        }
    }
    r0 && r1 && r2
}

fn ext_eq4(e: &str, c0: char, c1: char, c2: char, c3: char) -> (r: bool)
    ensures
        r == ci_eq(e@, seq![c0, c1, c2, c3]),
{
    let n: usize = e.unicode_len();
    if n != 4 {
        return false;
    }
    let r0 = char_lower_eq(e.get_char(0), c0);
    let r1 = char_lower_eq(e.get_char(1), c1);
    let r2 = char_lower_eq(e.get_char(2), c2);
    let r3 = char_lower_eq(e.get_char(3), c3);
    proof {
        let p = seq![c0, c1, c2, c3];
        assert(p[0] == c0 && p[1] == c1 && p[2] == c2 && p[3] == c3);
        if r0 && r1 && r2 && r3 {
            assert forall|i: int| 0 <= i < e@.len() implies lower_code(e@[i]) == lower_code(
                p[i],
            ) by {
                if i == 0 {
                } else if i == 1 {
                } else if i == 2 {
                } else {
                    assert(i == 3);
                }
            }
            assert(ci_eq(e@, p));
        } else {
            assert(!ci_eq(e@, p));
        }
    }
    r0 && r1 && r2 && r3
}

/// Extracts the name's extension, or `None` where it has none.
fn extension_str(name: &str) -> (r: Option<&str>)
    ensures
        (r is Some) <==> (extension_of(name@) is Some),
        r matches Some(e) ==> extension_of(name@) == Some(e@),
{
    proof {
        lemma_last_dot_range(name@);
    }
    match find_last_dot(name) {
        None => None,
        Some(d) => {
            if d == 0 {
                None
            } else {
                let n: usize = name.unicode_len();
                Some(name.substring_char(d + 1, n))
            }
        },
    }
}

/// Whether the name carries a recognized image extension.
pub fn is_image(name: &str) -> (r: bool)
    ensures
        r == is_image_name(name@),
{
    match extension_str(name) {
        None => false,
        Some(e) => ext_eq3(e, 'p', 'n', 'g') || ext_eq3(e, 'j', 'p', 'g') || ext_eq4(
            e,
            'j',
            'p',
            'e',
            'g',
        ) || ext_eq4(e, 'w', 'e', 'b', 'p'),
    }
}

/// The MIME type for a file name, chosen by its extension regardless
/// of ASCII case; anything unrecognized maps to the generic binary
/// type.
pub open spec fn content_type_spec(s: Seq<char>) -> Seq<char> {
    match extension_of(s) {
        Some(e) => {
            if ci_eq(e, seq!['p', 'n', 'g']) {
                "image/png"@
            } else if ci_eq(e, seq!['j', 'p', 'g']) || ci_eq(e, seq!['j', 'p', 'e', 'g']) {
                "image/jpeg"@
            } else if ci_eq(e, seq!['w', 'e', 'b', 'p']) {
                "image/webp"@
            } else {
                "application/octet-stream"@
            }
        },
        None => "application/octet-stream"@,
    }
}

/// Resolves the `Content-Type` served for a file name.
pub fn content_type_for(name: &str) -> (r: &'static str)
    ensures
        r@ == content_type_spec(name@),
{
    match extension_str(name) {
        None => "application/octet-stream",
        Some(e) => {
            if ext_eq3(e, 'p', 'n', 'g') {
                "image/png"
            } else if ext_eq3(e, 'j', 'p', 'g') || ext_eq4(e, 'j', 'p', 'e', 'g') {
                "image/jpeg"
            } else if ext_eq4(e, 'w', 'e', 'b', 'p') {
                "image/webp"
            } else {
                "application/octet-stream"
            }
        },
    }
}

/// The names of the recognized image files among the entries, in the
/// order the entries came.
pub open spec fn image_names(entries: Seq<DirEntry>) -> Seq<Seq<char>>
    decreases entries.len(),
{
    if entries.len() == 0 {
        Seq::empty()
    } else {
        let rest = image_names(entries.drop_last());
        if entries.last().is_file && is_image_name(entries.last().name@) {
            rest.push(entries.last().name@)
        } else {
            rest
        }
    }
}

/// What a correct listing of the entries is: exactly the recognized
/// image names, in code-point lexicographic order.
pub open spec fn listing_of(r: Seq<String>, entries: Seq<DirEntry>) -> bool {
    sorted_names(r) && names_of(r).to_multiset() == image_names(entries).to_multiset()
}

/// Lists the recognized image names among the directory's entries,
/// sorted ascending; entries that are not regular files or carry no
/// recognized extension are skipped.
pub fn load_images(entries: &Vec<DirEntry>) -> (r: Vec<String>)
    ensures
        listing_of(r@, entries@),
{
    let mut found: Vec<String> = Vec::new();
    proof {
        assert(entries@.subrange(0, 0) =~= Seq::<DirEntry>::empty());
        assert(names_of(found@) =~= Seq::<Seq<char>>::empty());
    }
    let mut i: usize = 0;
    while i < entries.len()
        invariant
            0 <= i <= entries@.len(),
            names_of(found@) == image_names(entries@.subrange(0, i as int)),
        decreases entries@.len() - i,
    {
        let ghost pre = found@;
        let e = &entries[i];
        if e.is_file && is_image(e.name.as_str()) {
            found.push(e.name.clone());
            proof {
                assert(names_of(found@) =~= names_of(pre).push(e.name@));
            }
        }
        proof {
            let sub1 = entries@.subrange(0, i + 1);
            assert(sub1.drop_last() =~= entries@.subrange(0, i as int));
            assert(sub1.last() == entries@[i as int]);
            if !(e.is_file && is_image_name(e.name@)) {
                assert(names_of(found@) == names_of(pre));
            }
        }
        i = i + 1;
    }
    proof {
        assert(entries@.subrange(0, entries@.len() as int) =~= entries@);
    }
    sort_names(found)
}

/// Accepts the path when the file system reported it to be a
/// directory; `probe` is what inspecting the path gave: `None` when it
/// could not be inspected, otherwise whether it is a directory.
pub fn validate_directory(path: String, probe: Option<bool>) -> (r: Result<String, AppError>)
    ensures
        (r is Ok) <==> probe == Some(true),
        r matches Ok(p) ==> p@ == path@,
        r matches Err(e) ==> e is InvalidPath,
        probe is None ==> (r matches Err(e) && e.message_spec() == "could not read "@ + path@),
        probe == Some(false) ==> (r matches Err(e) && e.message_spec() == path@
            + " is not a directory"@),
{
    match probe {
        Some(true) => Ok(path),
        Some(false) => Err(AppError::InvalidPath(path.concat(" is not a directory"))),
        None => {
            let mut m = String::from_str("could not read ");
            m.append(path.as_str());
            Err(AppError::InvalidPath(m))
        },
    }
}

/// The fatal startup error for a supplied directory without a single
/// recognized image, naming the extensions looked for.
pub fn empty_directory_error(dir: &str) -> (r: AppError)
    ensures
        r is EmptyDirectory,
        r.message_spec() == "No images found in "@ + dir@
            + " (looking for .png, .jpg, .jpeg, .webp)"@,
{
    let mut m = String::from_str("No images found in ");
    m.append(dir);
    m.append(" (looking for .png, .jpg, .jpeg, .webp)");
    AppError::EmptyDirectory(m)
}

} // verus!
