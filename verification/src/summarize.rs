//! The statistics of an unpacked package: how many files it has, which of
//! them are images, and which are element files.

use crate::files::{
    custom_xml_name, get_file_size_in_kb_from_bytes, image_extension, is_file_custom_xml,
    is_image_extension, kb_hundredths,
};
use crate::types::FilePathInfo;
use vstd::prelude::*;

verus! {

/// A file of the summary.
#[derive(Debug, Clone)]
pub struct SummaryFile {
    /// Name of the file up to its first dot.
    pub file_name: String,
    /// Path of the folder that holds the file.
    pub file_path: String,
    /// Size of the file in hundredths of a kilobyte.
    pub file_size_in_kb_hundredths: u64,
}

/// The images of a package.
#[derive(Debug, Clone)]
pub struct MediaInfo {
    pub file_count: usize,
    /// The sizes of the images together, in hundredths of a kilobyte.
    pub total_size_in_kb_hundredths: u128,
    pub files: Vec<SummaryFile>,
}

/// The summary of a package.
#[derive(Debug, Clone)]
pub struct SummarizeData {
    /// The container itself.
    pub basic_info: SummaryFile,
    /// The number of files of the unpacked tree.
    pub file_count: usize,
    pub media_info: MediaInfo,
    pub custom_xml_files: Vec<SummaryFile>,
}

/// The mathematical value of a file of the summary.
pub struct Listed {
    pub name: Seq<char>,
    pub path: Seq<char>,
    pub size: nat,
}

/// The mathematical value of a file of the unpacked tree, as far as the
/// summary reads it.
pub struct Found {
    pub name: Seq<char>,
    pub full_name: Seq<char>,
    pub extension: Option<Seq<char>>,
    pub path: Seq<char>,
    pub size: nat,
}

/// The value of one file of the unpacked tree.
pub open spec fn found_view(info: FilePathInfo) -> Found {
    Found {
        name: info.file_name@,
        full_name: info.file_name_with_extension@,
        extension: match info.file_extension {
            Some(extension) => Some(extension@),
            None => None,
        },
        path: info.file_path@,
        size: info.file_size as nat,
    }
}

/// The values of the files of the unpacked tree.
pub open spec fn found_files(files: Seq<FilePathInfo>) -> Seq<Found> {
    Seq::new(files.len(), |i: int| found_view(files[i]))
}

/// The values of the files of a summary.
pub open spec fn listed_files(files: Seq<SummaryFile>) -> Seq<Listed> {
    Seq::new(
        files.len(),
        |i: int|
            Listed {
                name: files[i].file_name@,
                path: files[i].file_path@,
                size: files[i].file_size_in_kb_hundredths as nat,
            },
    )
}

/// How a file is listed in the summary.
pub open spec fn listed(file: Found) -> Listed {
    Listed { name: file.name, path: file.path, size: kb_hundredths(file.size) }
}

/// The file is an element file.
pub open spec fn counts_as_custom_xml(file: Found) -> bool {
    custom_xml_name(file.full_name)
}

/// The file is an image: it is no element file and has the extension of an
/// image.
pub open spec fn counts_as_media(file: Found) -> bool {
    !custom_xml_name(file.full_name) && file.extension is Some && image_extension(
        file.extension->0,
    )
}

/// The element files among `files`, in their order.
pub open spec fn custom_xml_listing(files: Seq<Found>) -> Seq<Listed>
    decreases files.len(),
{
    if files.len() == 0 {
        Seq::empty()
    } else if counts_as_custom_xml(files.last()) {
        custom_xml_listing(files.drop_last()).push(listed(files.last()))
    } else {
        custom_xml_listing(files.drop_last())
    }
}

/// The images among `files`, in their order.
pub open spec fn media_listing(files: Seq<Found>) -> Seq<Listed>
    decreases files.len(),
{
    if files.len() == 0 {
        Seq::empty()
    } else if counts_as_media(files.last()) {
        media_listing(files.drop_last()).push(listed(files.last()))
    } else {
        media_listing(files.drop_last())
    }
}

/// The sizes of the images among `files` together.
pub open spec fn media_total(files: Seq<Found>) -> nat
    decreases files.len(),
{
    if files.len() == 0 {
        0
    } else if counts_as_media(files.last()) {
        media_total(files.drop_last()) + kb_hundredths(files.last().size)
    } else {
        media_total(files.drop_last())
    }
}

/// How `info` is listed in the summary.
fn list_file(info: &FilePathInfo) -> (file: SummaryFile)
    ensures
        file.file_name@ == info.file_name@,
        file.file_path@ == info.file_path@,
        file.file_size_in_kb_hundredths == kb_hundredths(info.file_size as nat),
{
    SummaryFile {
        file_name: info.file_name.clone(),
        file_path: info.file_path.clone(),
        file_size_in_kb_hundredths: get_file_size_in_kb_from_bytes(info.file_size),
    }
}

/// Summarizes a package: the container `file_path_info` and the files of
/// its unpacked tree. Every file is counted; element files and images are
/// listed, each in the order of `files`, and the sizes of the images are
/// added up.
pub fn summarize(file_path_info: &FilePathInfo, files: &Vec<FilePathInfo>) -> (summary:
    SummarizeData)
    ensures
        summary.file_count == files.len(),
        summary.basic_info.file_name@ == file_path_info.file_name@,
        summary.basic_info.file_path@ == file_path_info.file_path@,
        summary.basic_info.file_size_in_kb_hundredths == kb_hundredths(
            file_path_info.file_size as nat,
        ),
        listed_files(summary.custom_xml_files@) == custom_xml_listing(found_files(files@)),
        listed_files(summary.media_info.files@) == media_listing(found_files(files@)),
        summary.media_info.file_count == summary.media_info.files.len(),
        summary.media_info.total_size_in_kb_hundredths == media_total(found_files(files@)),
{
    let ghost all = found_files(files@);
    let mut custom_xml_files: Vec<SummaryFile> = Vec::new();
    let mut media_files: Vec<SummaryFile> = Vec::new();
    let mut total: u128 = 0;
    let mut i: usize = 0;
    assert(all.take(0) == Seq::<Found>::empty());
    assert(listed_files(custom_xml_files@) == Seq::<Listed>::empty());
    assert(listed_files(media_files@) == Seq::<Listed>::empty());
    while i < files.len()
        invariant
            i <= files.len(),
            all == found_files(files@),
            listed_files(custom_xml_files@) == custom_xml_listing(all.take(i as int)),
            listed_files(media_files@) == media_listing(all.take(i as int)),
            total == media_total(all.take(i as int)),
            total <= i * 0xffff_ffff_ffff_ffff,
            media_files.len() <= i,
        decreases files.len() - i,
    {
        let info = &files[i];
        proof {
            assert(all.take(i + 1).drop_last() == all.take(i as int));
            assert(all.take(i + 1).last() == found_view(*info));
        }
        let is_image = match &info.file_extension {
            Some(extension) => is_image_extension(extension.as_str()),
            None => false,
        };
        if is_file_custom_xml(info.file_name_with_extension.as_str()) {
            let ghost before = listed_files(custom_xml_files@);
            let file = list_file(info);
            custom_xml_files.push(file);
            assert(listed_files(custom_xml_files@) == before.push(listed(found_view(*info))));
        } else if is_image {
            let ghost before = listed_files(media_files@);
            let file = list_file(info);
            total = total + file.file_size_in_kb_hundredths as u128;
            media_files.push(file);
            assert(listed_files(media_files@) == before.push(listed(found_view(*info))));
        }
        i += 1;
    }
    assert(all.take(files.len() as int) == all);
    let file_count = media_files.len();
    SummarizeData {
        basic_info: list_file(file_path_info),
        file_count: files.len(),
        media_info: MediaInfo {
            file_count,
            total_size_in_kb_hundredths: total,
            files: media_files,
        },
        custom_xml_files,
    }
}

} // verus!
