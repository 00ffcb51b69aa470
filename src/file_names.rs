//! File names: extensions, the supported image formats, and the sibling names
//! used for staging and backups.
use vstd::prelude::*;
use vstd::string::*;

verus! {

/// The image formats the optimiser re-encodes.
#[derive(Debug, Clone, Copy, PartialEq, Eq, Structural)]
pub enum ImageFormat {
    Jpeg,
    Png,
    Webp,
}

/// Index of the last `'.'` in `s`, or -1 when there is none.
pub open spec fn last_dot(s: Seq<char>) -> int
    decreases s.len(),
{
    if s.len() == 0 {
        -1
    } else if s.last() == '.' {
        s.len() - 1
    } else {
        last_dot(s.drop_last())
    }
}

/// The extension of a file name: what follows its last dot, unless that dot is the
/// first character or there is none.
pub open spec fn extension_of(name: Seq<char>) -> Option<Seq<char>> {
    let d = last_dot(name);
    if d <= 0 { None } else { Some(name.subrange(d + 1, name.len() as int)) }
}

/// The file name without its extension and the dot before it.
pub open spec fn stem_of(name: Seq<char>) -> Seq<char> {
    let d = last_dot(name);
    if d <= 0 { name } else { name.subrange(0, d) }
}

/// `s` equals the lower-case ASCII word `lower` when ASCII case is ignored.
pub open spec fn eq_ignore_ascii_case(s: Seq<char>, lower: Seq<char>) -> bool {
    &&& s.len() == lower.len()
    &&& forall|i: int| 0 <= i < s.len() ==>
        (#[trigger] s[i] == lower[i]
            || ('a' <= lower[i] <= 'z' && s[i] as u32 + 32 == lower[i] as u32))
}

/// The format named by an extension, in any ASCII case: jpg or jpeg, png, webp.
pub open spec fn format_of_extension(ext: Seq<char>) -> Option<ImageFormat> {
    if eq_ignore_ascii_case(ext, seq!['j', 'p', 'g']) || eq_ignore_ascii_case(ext, seq!['j', 'p', 'e', 'g']) {
        Some(ImageFormat::Jpeg)
    } else if eq_ignore_ascii_case(ext, seq!['p', 'n', 'g']) {
        Some(ImageFormat::Png)
    } else if eq_ignore_ascii_case(ext, seq!['w', 'e', 'b', 'p']) {
        Some(ImageFormat::Webp)
    } else {
        None
    }
}

/// The format of a file, from its extension.
pub open spec fn format_of_file_name(name: Seq<char>) -> Option<ImageFormat> {
    match extension_of(name) {
        Some(ext) => format_of_extension(ext),
        None => None,
    }
}

/// The staging name beside the file: `<stem>.tmp.<extension>`, with `jpg` standing in
/// for a missing extension.
pub open spec fn staging_name(name: Seq<char>) -> Seq<char> {
    let ext = match extension_of(name) {
        Some(e) => e,
        None => seq!['j', 'p', 'g'],
    };
    stem_of(name) + seq!['.', 't', 'm', 'p', '.'] + ext
}

/// The backup name beside the file: `<stem>.<extension>.bak`, the extension empty
/// when there is none.
pub open spec fn backup_name(name: Seq<char>) -> Seq<char> {
    let ext = match extension_of(name) {
        Some(e) => e,
        None => Seq::<char>::empty(),
    };
    stem_of(name) + seq!['.'] + ext + seq!['.', 'b', 'a', 'k']
}

proof fn lemma_last_dot_range(s: Seq<char>)
    ensures
        -1 <= last_dot(s) < s.len(),
        last_dot(s) >= 0 ==> s[last_dot(s)] == '.',
    decreases s.len(),
{
    if s.len() > 0 && s.last() != '.' {
        lemma_last_dot_range(s.drop_last());
    }
}

/// Index of the last dot of `name`, when the name has an extension.
fn extension_dot(name: &str) -> (r: Option<usize>)
    ensures
        match r {
            Some(d) => last_dot(name@) == d as int && 0 < d < name@.len(),
            None => last_dot(name@) <= 0,
        },
{
    let n = name.unicode_len();
    let mut i: usize = n;
    assert(name@.subrange(0, n as int) =~= name@);
    proof {
        lemma_last_dot_range(name@);
    }
    while i > 0
        invariant
            i <= n,
            n == name@.len(),
            last_dot(name@) == last_dot(name@.subrange(0, i as int)),
            -1 <= last_dot(name@) < n,
        decreases i,
    {
        let ghost pre = name@.subrange(0, i as int);
        assert(pre.drop_last() =~= name@.subrange(0, i - 1));
        if name.get_char(i - 1) == '.' {
            if i - 1 == 0 {
                return None;
            }
            return Some(i - 1);
        }
        i = i - 1;
    }
    None
}

/// The extension of a file name (see `extension_of`).
pub fn file_extension(name: &str) -> (r: Option<&str>)
    ensures
        match r {
            Some(e) => extension_of(name@) == Some(e@),
            None => extension_of(name@) is None,
        },
{
    assert(name@.subrange(0, name@.len() as int) =~= name@);
    let n = name.unicode_len();
    match extension_dot(name) {
        Some(d) => Some(name.substring_char(d + 1, n)),
        None => None,
    }
}

fn eq_ignore_case(s: &str, lower: &str) -> (r: bool)
    ensures
        r == eq_ignore_ascii_case(s@, lower@),
{
    let n = s.unicode_len();
    if n != lower.unicode_len() {
        return false;
    }
    let mut i: usize = 0;
    while i < n
        invariant
            i <= n,
            n == s@.len(),
            n == lower@.len(),
            forall|j: int| 0 <= j < i ==>
                (#[trigger] s@[j] == lower@[j]
                    || ('a' <= lower@[j] <= 'z' && s@[j] as u32 + 32 == lower@[j] as u32)),
        decreases n - i,
    {
        let c = s.get_char(i);
        let l = lower.get_char(i);
        if !(c == l || ('a' <= l && l <= 'z' && (c as u32) + 32 == l as u32)) {
            return false;
        }
        i = i + 1;
    }
    true
}

/// The format named by an extension, ignoring ASCII case.
pub fn format_from_extension(ext: &str) -> (r: Option<ImageFormat>)
    ensures
        r == format_of_extension(ext@),
{
    proof {
        reveal_strlit("jpg");
        reveal_strlit("jpeg");
        reveal_strlit("png");
        reveal_strlit("webp");
    }
    assert("jpg"@ =~= seq!['j', 'p', 'g']);
    assert("jpeg"@ =~= seq!['j', 'p', 'e', 'g']);
    assert("png"@ =~= seq!['p', 'n', 'g']);
    assert("webp"@ =~= seq!['w', 'e', 'b', 'p']);
    if eq_ignore_case(ext, "jpg") || eq_ignore_case(ext, "jpeg") {
        Some(ImageFormat::Jpeg)
    } else if eq_ignore_case(ext, "png") {
        Some(ImageFormat::Png)
    } else if eq_ignore_case(ext, "webp") {
        Some(ImageFormat::Webp)
    } else {
        None
    }
}

/// Whether an extension names a supported image format, ignoring ASCII case.
pub fn is_supported_extension(ext: &str) -> (r: bool)
    ensures
        r == format_of_extension(ext@) is Some,
{
    format_from_extension(ext).is_some()
}

/// The format of a file, from the extension of its name.
pub fn format_of_file(name: &str) -> (r: Option<ImageFormat>)
    ensures
        r == format_of_file_name(name@),
{
    match file_extension(name) {
        Some(ext) => format_from_extension(ext),
        None => None,
    }
}

/// The file name without its extension.
fn file_stem(name: &str) -> (r: &str)
    ensures
        r@ == stem_of(name@),
{
    match extension_dot(name) {
        Some(d) => name.substring_char(0, d),
        None => name,
    }
}

/// The name the encoder writes to beside the file, in place of the final name.
pub fn staging_file_name(name: &str) -> (r: String)
    ensures
        r@ == staging_name(name@),
{
    let mut s = String::from_str(file_stem(name));
    proof {
        reveal_strlit(".tmp.");
        reveal_strlit("jpg");
    }
    s.append(".tmp.");
    match file_extension(name) {
        Some(e) => s.append(e),
        None => s.append("jpg"),
    }
    assert(s@ =~= staging_name(name@));
    s
}

/// The name of the backup copy beside the file.
pub fn backup_file_name(name: &str) -> (r: String)
    ensures
        r@ == backup_name(name@),
{
    let mut s = String::from_str(file_stem(name));
    proof {
        reveal_strlit(".");
        reveal_strlit(".bak");
    }
    s.append(".");
    match file_extension(name) {
        Some(e) => s.append(e),
        None => {},
    }
    s.append(".bak");
    assert(s@ =~= backup_name(name@));
    s
}

} // verus!
