//! Names and sizes of the files of an unpacked package.

use crate::char_class::{digit_char, is_digit_char};
use crate::text::{chars_of, join_path, joined, same_text};
use crate::types::{FilePathInfo, ZipFolder, EXTRACTED_FOLDER_NAME};
use vstd::prelude::*;

verus! {

/// The package root of a container: the folder of the container, a slash,
/// and the name of the container up to its first dot.
pub open spec fn root_folder_of(file_path: Seq<char>, file_name: Seq<char>) -> Seq<char> {
    joined(file_path, file_name)
}

/// The folders that the container `file_path_info` is unpacked into: the
/// package root beside the container, and the folder of the unpacked tree
/// in it.
pub fn get_output_folder(file_path_info: &FilePathInfo) -> (folders: ZipFolder)
    ensures
        folders.root_folder@ == root_folder_of(
            file_path_info.file_path@,
            file_path_info.file_name@,
        ),
        folders.extracted_folder@ == joined(folders.root_folder@, EXTRACTED_FOLDER_NAME@),
{
    let root_folder = join_path(
        file_path_info.file_path.as_str(),
        file_path_info.file_name.as_str(),
    );
    let extracted_folder = join_path(root_folder.as_str(), EXTRACTED_FOLDER_NAME);
    ZipFolder { root_folder, extracted_folder }
}

/// Whether `extension` names one of the image formats that count as media.
/// Capital letters do not count.
pub open spec fn image_extension(extension: Seq<char>) -> bool {
    ||| extension == "jpg"@
    ||| extension == "jpeg"@
    ||| extension == "png"@
    ||| extension == "gif"@
    ||| extension == "bmp"@
    ||| extension == "tiff"@
    ||| extension == "ico"@
}

/// Whether `extension` is the extension of an image.
pub fn is_image_extension(extension: &str) -> (b: bool)
    ensures
        b == image_extension(extension@),
{
    same_text(extension, "jpg") || same_text(extension, "jpeg") || same_text(extension, "png")
        || same_text(extension, "gif") || same_text(extension, "bmp") || same_text(
        extension,
        "tiff",
    ) || same_text(extension, "ico")
}

/// The size in hundredths of a kilobyte of a file of `file_size` bytes: the
/// size in bytes times 100, divided by 1024 and rounded to the nearest whole
/// number, halves upwards.
pub open spec fn kb_hundredths(file_size: nat) -> nat {
    ((file_size * 100 + 512) / 1024) as nat
}

/// The size of a file in hundredths of a kilobyte, so that 1234 bytes give
/// 121, which stands for 1.21 KB.
pub fn get_file_size_in_kb_from_bytes(file_size: u64) -> (hundredths: u64)
    ensures
        hundredths == kb_hundredths(file_size as nat),
{
    let whole: u64 = file_size / 1024;
    let rest: u64 = file_size % 1024;
    whole * 100 + (rest * 100 + 512) / 1024
}

/// Whether `name` is the name of an element file: `item`, one or more
/// digits, and `.xml`, with nothing before or after.
pub open spec fn custom_xml_name(name: Seq<char>) -> bool {
    &&& name.len() > 8
    &&& name.subrange(0, 4) == seq!['i', 't', 'e', 'm']
    &&& name.subrange(name.len() - 4, name.len() as int) == seq!['.', 'x', 'm', 'l']
    &&& forall|i: int| 4 <= i < name.len() - 4 ==> is_digit_char(#[trigger] name[i])
}

/// Whether `file_name` is the name of an element file, such as `item1.xml`.
/// `itemProps1.xml` and `item.xml` are none.
pub fn is_file_custom_xml(file_name: &str) -> (b: bool)
    ensures
        b == custom_xml_name(file_name@),
{
    let name = chars_of(file_name);
    let n: usize = name.len();
    if n <= 8 {
        return false;
    }
    if name[0] != 'i' || name[1] != 't' || name[2] != 'e' || name[3] != 'm' {
        assert(name@.subrange(0, 4)[0] == name@[0]);
        assert(name@.subrange(0, 4)[1] == name@[1]);
        assert(name@.subrange(0, 4)[2] == name@[2]);
        assert(name@.subrange(0, 4)[3] == name@[3]);
        return false;
    }
    assert(name@.subrange(0, 4) == seq!['i', 't', 'e', 'm']);
    if name[n - 4] != '.' || name[n - 3] != 'x' || name[n - 2] != 'm' || name[n - 1] != 'l' {
        let ghost tail = name@.subrange(n - 4, n as int);
        assert(tail[0] == name@[n - 4]);
        assert(tail[1] == name@[n - 3]);
        assert(tail[2] == name@[n - 2]);
        assert(tail[3] == name@[n - 1]);
        return false;
    }
    assert(name@.subrange(n - 4, n as int) == seq!['.', 'x', 'm', 'l']);
    let mut i: usize = 4;
    while i < n - 4
        invariant
            4 <= i <= n - 4,
            n == name.len(),
            name@ == file_name@,
            forall|j: int| 4 <= j < i ==> is_digit_char(#[trigger] name@[j]),
        decreases n - i,
    {
        if !digit_char(name[i]) {
            assert(!is_digit_char(name@[i as int]));
            return false;
        }
        i += 1;
    }
    true
}

} // verus!
