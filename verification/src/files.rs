//! What the file commands of the application decide once the file system has
//! answered: which files are images, in what order they are listed, and how
//! the outcome of organizing files is put into words.

use vstd::prelude::*;
use vstd::string::*;
use crate::order::{lemma_insert_position_unique, sort_by};
use crate::text::{copy_text, text_before_or_equal, text_le};

verus! {

/// A text in lower case, as `str::to_lowercase` of the standard library
/// writes it.
pub uninterp spec fn spec_lowercase(text: Seq<char>) -> Seq<char>;

/// A text in lower case.
///
/// Calls `str::to_lowercase`, which maps every character by the Unicode
/// rules for lower case. The result is named, not spelled out.
#[verifier::external_body]
fn lowercase(text: &str) -> (lower: String)
    ensures
        lower@ == spec_lowercase(text@),
{
    text.to_lowercase()
}

/// The extensions of image files, in lower case.
pub open spec fn spec_is_image_extension(lowercase: Seq<char>) -> bool {
    lowercase == "jpg"@ || lowercase == "jpeg"@ || lowercase == "png"@
}

/// Whether an extension that is already in lower case is that of an image
/// file.
pub fn is_lowercase_image_extension(lowercase: &String) -> (image: bool)
    ensures
        image == spec_is_image_extension(lowercase@),
{
    *lowercase == String::from_str("jpg") || *lowercase == String::from_str("jpeg") || *lowercase
        == String::from_str("png")
}

/// Whether an extension is that of an image file: "jpg", "jpeg" or "png",
/// written in any case.
pub fn is_image_extension(extension: &str) -> (image: bool)
    ensures
        image == spec_is_image_extension(spec_lowercase(extension@)),
{
    is_lowercase_image_extension(&lowercase(extension))
}

/// The texts of a list of strings.
pub open spec fn text_views(names: Seq<String>) -> Seq<Seq<char>> {
    names.map_values(|s: String| s@)
}

/// The order of a listing: byte by byte.
pub open spec fn by_text() -> spec_fn(Seq<char>, Seq<char>) -> bool {
    |a: Seq<char>, b: Seq<char>| text_le(a, b)
}

/// The given paths in ascending order.
pub fn sort_paths(paths: &Vec<String>) -> (sorted: Vec<String>)
    ensures
        text_views(sorted@) == sort_by(text_views(paths@), by_text()),
{
    let ghost names = text_views(paths@);
    let mut sorted: Vec<String> = Vec::new();
    let mut i: usize = 0;
    proof {
        assert(names.take(0) =~= Seq::empty());
        assert(text_views(sorted@) =~= Seq::empty());
    }
    while i < paths.len()
        invariant
            i <= paths.len(),
            names == text_views(paths@),
            text_views(sorted@) == sort_by(names.take(i as int), by_text()),
        decreases paths.len() - i,
    {
        let path = copy_text(&paths[i]);
        let ghost before = text_views(sorted@);
        let mut j: usize = sorted.len();
        while j > 0 && !text_before_or_equal(sorted[j - 1].as_str(), path.as_str())
            invariant
                j <= sorted.len(),
                before == text_views(sorted@),
                forall|k: int| j <= k < before.len() ==> !#[trigger] by_text()(before[k], path@),
            decreases j,
        {
            j = j - 1;
        }
        proof {
            lemma_insert_position_unique(before, path@, by_text(), j as int);
            assert(names.take(i as int + 1).drop_last() =~= names.take(i as int));
            assert(names[i as int] == path@);
        }
        sorted.insert(j, path);
        proof {
            assert(text_views(sorted@) =~= before.insert(j as int, names[i as int]));
        }
        i = i + 1;
    }
    proof {
        assert(names.take(i as int) =~= names);
    }
    sorted
}

/// One decimal digit as text.
pub open spec fn spec_digit(digit: nat) -> Seq<char> {
    if digit == 0 {
        "0"@
    } else if digit == 1 {
        "1"@
    } else if digit == 2 {
        "2"@
    } else if digit == 3 {
        "3"@
    } else if digit == 4 {
        "4"@
    } else if digit == 5 {
        "5"@
    } else if digit == 6 {
        "6"@
    } else if digit == 7 {
        "7"@
    } else if digit == 8 {
        "8"@
    } else {
        "9"@
    }
}

/// A number in decimal, without leading zeros.
pub open spec fn spec_decimal(n: nat) -> Seq<char>
    decreases n,
{
    if n < 10 {
        spec_digit(n)
    } else {
        spec_decimal(n / 10) + spec_digit(n % 10)
    }
}

/// One decimal digit as text.
fn digit(d: usize) -> (text: &'static str)
    requires
        d < 10,
    ensures
        text@ == spec_digit(d as nat),
{
    if d == 0 {
        "0"
    } else if d == 1 {
        "1"
    } else if d == 2 {
        "2"
    } else if d == 3 {
        "3"
    } else if d == 4 {
        "4"
    } else if d == 5 {
        "5"
    } else if d == 6 {
        "6"
    } else if d == 7 {
        "7"
    } else if d == 8 {
        "8"
    } else {
        "9"
    }
}

/// A number in decimal, without leading zeros.
pub fn decimal(n: usize) -> (text: String)
    ensures
        text@ == spec_decimal(n as nat),
    decreases n,
{
    if n < 10 {
        String::from_str(digit(n))
    } else {
        let mut text = decimal(n / 10);
        text.append(digit(n % 10));
        text
    }
}

/// How the outcome of organizing files is put into words.
pub open spec fn spec_organize_summary(copied: nat, retouch: nat, retake: nat, wrong: nat) -> Seq<
    char,
> {
    "Files organized successfully: "@ + spec_decimal(copied) + " files copied ("@ + spec_decimal(
        retouch,
    ) + " Retouch, "@ + spec_decimal(retake) + " Retake, "@ + spec_decimal(wrong) + " Wrong)"@
}

/// The outcome of organizing files in words: how many files were copied, and
/// how many were handed in to retouch, to retake and as wrong.
pub fn organize_summary(copied: usize, retouch: usize, retake: usize, wrong: usize) -> (text:
    String)
    ensures
        text@ == spec_organize_summary(copied as nat, retouch as nat, retake as nat, wrong as nat),
{
    let mut text = String::from_str("Files organized successfully: ");
    text.append(decimal(copied).as_str());
    text.append(" files copied (");
    text.append(decimal(retouch).as_str());
    text.append(" Retouch, ");
    text.append(decimal(retake).as_str());
    text.append(" Retake, ");
    text.append(decimal(wrong).as_str());
    text.append(" Wrong)");
    text
}

} // verus!
