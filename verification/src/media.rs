//! Recognition of image files by their path suffix.

use vstd::prelude::*;
use vstd::string::StrSliceExecFns;

verus! {

/// `s` ends with `suffix`, character for character.
pub open spec fn ends_with(s: Seq<char>, suffix: Seq<char>) -> bool {
    &&& s.len() >= suffix.len()
    &&& forall|i: int| 0 <= i < suffix.len() ==> s[s.len() - suffix.len() + i] == suffix[i]
}

/// The path carries one of the file extensions the pipeline treats as an
/// image.
pub open spec fn is_image_spec(path: Seq<char>) -> bool {
    ||| ends_with(path, ".jpg"@)
    ||| ends_with(path, ".png"@)
    ||| ends_with(path, ".jpeg"@)
    ||| ends_with(path, ".webp"@)
    ||| ends_with(path, ".tif"@)
    ||| ends_with(path, ".avif"@)
}

/// Compares the tail of `s` against `suffix`, character by character.
fn str_ends_with(s: &str, suffix: &str) -> (r: bool)
    ensures
        r == ends_with(s@, suffix@),
{
    let n = s.unicode_len();
    let m = suffix.unicode_len();
    if m > n {
        return false;
    }
    let mut i: usize = 0;
    while i < m
        invariant
            i <= m,
            m <= n,
            n == s@.len(),
            m == suffix@.len(),
            forall|k: int| 0 <= k < i ==> s@[n - m + k] == suffix@[k],
        decreases m - i,
    {
        let c1 = s.get_char(n - m + i);
        let c2 = suffix.get_char(i);
        if c1 != c2 {
            return false;
        }
        i = i + 1;
    }
    true
}

/// True when the path names an image file the pipeline accepts.
pub fn is_image(image_path: &str) -> (r: bool)
    ensures
        r == is_image_spec(image_path@),
{
    str_ends_with(image_path, ".jpg") || str_ends_with(image_path, ".png") || str_ends_with(
        image_path,
        ".jpeg",
    ) || str_ends_with(image_path, ".webp") || str_ends_with(image_path, ".tif")
        || str_ends_with(image_path, ".avif")
}

} // verus!
