//! Request paths: the segment check, containment in the image root, the
//! file extension, and the two tables that map an extension to a response
//! content type and to an encoding format.

use vstd::prelude::*;
use crate::text::same_text;

verus! {

/// The content type that a response advertises.
#[derive(Clone, Copy, Debug, PartialEq, Eq, Structural)]
pub enum ContentKind {
    Png,
    Jpeg,
    Gif,
    WebP,
    Bmp,
}

/// The container format that a transformed image is encoded in.
#[derive(Clone, Copy, Debug, PartialEq, Eq, Structural)]
pub enum OutputFormat {
    Png,
    Jpeg,
    Gif,
    WebP,
    Bmp,
}

/// A segment is safe when it is not a parent-directory step and does not
/// hide a separator of its own.
pub open spec fn segment_is_safe(s: Seq<char>) -> bool {
    s != seq!['.', '.'] && !s.contains('/')
}

pub open spec fn segments_are_safe(segs: Seq<String>) -> bool {
    forall|i: int| 0 <= i < segs.len() ==> segment_is_safe(#[trigger] segs[i]@)
}

/// `target` lies under `root`: the components of `root` begin those of `target`.
pub open spec fn within(root: Seq<String>, target: Seq<String>) -> bool {
    root.len() <= target.len() && forall|i: int| 0 <= i < root.len() ==> #[trigger] root[i]@ == target[i]@
}

/// The index of the last `.` in `s`, or -1 where there is none.
pub open spec fn last_dot(s: Seq<char>) -> int
    decreases s.len(),
{
    if s.len() == 0 {
        -1
    } else if s.last() == '.' {
        s.len() - 1
    } else {
        last_dot(s.drop_last())
    }
}

/// The extension of a file name: what follows its last `.`, unless there is
/// no `.` or the only one starts the name.
pub open spec fn extension_of(name: Seq<char>) -> Option<Seq<char>> {
    let i = last_dot(name);
    if i <= 0 {
        None
    } else {
        Some(name.subrange(i + 1, name.len() as int))
    }
}

/// The extension of the last segment of a request path.
pub open spec fn path_extension(segs: Seq<String>) -> Option<Seq<char>> {
    if segs.len() == 0 {
        None
    } else {
        extension_of(segs.last()@)
    }
}

pub open spec fn content_kind_of(ext: Option<Seq<char>>) -> ContentKind {
    match ext {
        Some(e) => if e == seq!['p', 'n', 'g'] {
            ContentKind::Png
        } else if e == seq!['j', 'p', 'g'] || e == seq!['j', 'p', 'e', 'g'] {
            ContentKind::Jpeg
        } else if e == seq!['g', 'i', 'f'] {
            ContentKind::Gif
        } else if e == seq!['w', 'e', 'b', 'p'] {
            ContentKind::WebP
        } else if e == seq!['b', 'm', 'p'] {
            ContentKind::Bmp
        } else {
            ContentKind::Png
        },
        None => ContentKind::Png,
    }
}

pub open spec fn output_format_of(ext: Option<Seq<char>>) -> OutputFormat {
    match ext {
        Some(e) => if e == seq!['p', 'n', 'g'] {
            OutputFormat::Png
        } else if e == seq!['j', 'p', 'g'] || e == seq!['j', 'p', 'e', 'g'] {
            OutputFormat::Jpeg
        } else if e == seq!['g', 'i', 'f'] {
            OutputFormat::Gif
        } else if e == seq!['w', 'e', 'b', 'p'] {
            OutputFormat::WebP
        } else if e == seq!['b', 'm', 'p'] {
            OutputFormat::Bmp
        } else {
            OutputFormat::Png
        },
        None => OutputFormat::Png,
    }
}

fn contains_slash(s: &str) -> (r: bool)
    ensures
        r == s@.contains('/'),
{
    let n = s.unicode_len();
    let mut i: usize = 0;
    while i < n
        invariant
            n == s@.len(),
            i <= n,
            forall|j: int| 0 <= j < i ==> s@[j] != '/',
        decreases n - i,
    {
        if s.get_char(i) == '/' {
            return true;
        }
        i = i + 1;
    }
    false
}

/// Whether a single segment is safe.
pub fn is_safe_segment(s: &str) -> (r: bool)
    ensures
        r == segment_is_safe(s@),
{
    proof {
        reveal_strlit("..");
        assert(".."@ =~= seq!['.', '.']);
    }
    !same_text(s, "..") && !contains_slash(s)
}

/// The pre-filter on a requested path: no segment may step to a parent
/// directory. This alone does not keep a request inside the image root
/// (see `is_within`).
pub fn is_safe_path(segments: &Vec<String>) -> (r: bool)
    ensures
        r == segments_are_safe(segments@),
{
    let mut i: usize = 0;
    while i < segments.len()
        invariant
            i <= segments@.len(),
            forall|j: int| 0 <= j < i ==> segment_is_safe(#[trigger] segments@[j]@),
        decreases segments.len() - i,
    {
        if !is_safe_segment(segments[i].as_str()) {
            return false;
        }
        i = i + 1;
    }
    true
}

/// The authoritative containment check, on fully resolved paths given as
/// components: whether `target` lies under `root`.
pub fn is_within(root: &Vec<String>, target: &Vec<String>) -> (r: bool)
    ensures
        r == within(root@, target@),
{
    if root.len() > target.len() {
        return false;
    }
    let mut i: usize = 0;
    while i < root.len()
        invariant
            root@.len() <= target@.len(),
            i <= root@.len(),
            forall|j: int| 0 <= j < i ==> #[trigger] root@[j]@ == target@[j]@,
        decreases root.len() - i,
    {
        if root[i] != target[i] {
            return false;
        }
        i = i + 1;
    }
    true
}

/// The extension of a file name.
pub fn extension(name: &str) -> (r: Option<&str>)
    ensures
        r matches Some(e) ==> extension_of(name@) == Some(e@),
        r is None ==> extension_of(name@) is None,
{
    let n = name.unicode_len();
    let mut i: usize = n;
    assert(name@.take(n as int) =~= name@);
    while i > 0
        invariant
            n == name@.len(),
            i <= n,
            last_dot(name@) == last_dot(name@.take(i as int)),
        decreases i,
    {
        assert(name@.take(i as int).drop_last() =~= name@.take(i - 1));
        if name.get_char(i - 1) == '.' {
            if i == 1 {
                return None;
            }
            return Some(name.substring_char(i, n));
        }
        i = i - 1;
    }
    assert(name@.take(0) =~= Seq::<char>::empty());
    None
}

/// The extension of the last segment of a request path.
pub fn request_extension(segments: &Vec<String>) -> (r: Option<&str>)
    ensures
        r matches Some(e) ==> path_extension(segments@) == Some(e@),
        r is None ==> path_extension(segments@) is None,
{
    if segments.len() == 0 {
        None
    } else {
        extension(segments[segments.len() - 1].as_str())
    }
}

/// The content type advertised for an extension; unknown or missing
/// extensions advertise PNG.
pub fn content_type_for(ext: Option<&str>) -> (r: ContentKind)
    ensures
        r == content_kind_of(match ext { Some(e) => Some(e@), None => None }),
{
    proof {
        reveal_strlit("png");
        reveal_strlit("jpg");
        reveal_strlit("jpeg");
        reveal_strlit("gif");
        reveal_strlit("webp");
        reveal_strlit("bmp");
        assert("png"@ =~= seq!['p', 'n', 'g']);
        assert("jpg"@ =~= seq!['j', 'p', 'g']);
        assert("jpeg"@ =~= seq!['j', 'p', 'e', 'g']);
        assert("gif"@ =~= seq!['g', 'i', 'f']);
        assert("webp"@ =~= seq!['w', 'e', 'b', 'p']);
        assert("bmp"@ =~= seq!['b', 'm', 'p']);
    }
    match ext {
        Some(e) => if same_text(e, "png") {
            ContentKind::Png
        } else if same_text(e, "jpg") || same_text(e, "jpeg") {
            ContentKind::Jpeg
        } else if same_text(e, "gif") {
            ContentKind::Gif
        } else if same_text(e, "webp") {
            ContentKind::WebP
        } else if same_text(e, "bmp") {
            ContentKind::Bmp
        } else {
            ContentKind::Png
        },
        None => ContentKind::Png,
    }
}

/// The format a transformed image is encoded in for an extension; unknown or
/// missing extensions are encoded as PNG. Kept apart from `content_type_for`
/// on purpose: the two tables are independent.
pub fn output_format_for(ext: Option<&str>) -> (r: OutputFormat)
    ensures
        r == output_format_of(match ext { Some(e) => Some(e@), None => None }),
{
    proof {
        reveal_strlit("png");
        reveal_strlit("jpg");
        reveal_strlit("jpeg");
        reveal_strlit("gif");
        reveal_strlit("webp");
        reveal_strlit("bmp");
        assert("png"@ =~= seq!['p', 'n', 'g']);
        assert("jpg"@ =~= seq!['j', 'p', 'g']);
        assert("jpeg"@ =~= seq!['j', 'p', 'e', 'g']);
        assert("gif"@ =~= seq!['g', 'i', 'f']);
        assert("webp"@ =~= seq!['w', 'e', 'b', 'p']);
        assert("bmp"@ =~= seq!['b', 'm', 'p']);
    }
    match ext {
        Some(e) => if same_text(e, "png") {
            OutputFormat::Png
        } else if same_text(e, "jpg") || same_text(e, "jpeg") {
            OutputFormat::Jpeg
        } else if same_text(e, "gif") {
            OutputFormat::Gif
        } else if same_text(e, "webp") {
            OutputFormat::WebP
        } else if same_text(e, "bmp") {
            OutputFormat::Bmp
        } else {
            OutputFormat::Png
        },
        None => OutputFormat::Png,
    }
}

} // verus!
