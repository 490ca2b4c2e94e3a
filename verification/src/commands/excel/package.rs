//! The zip container of a workbook, held in memory.

use crate::commands::excel::media::{
    bytes_of, is_media_entry, is_media_path, media_step, needs_conversion, no_media,
    wants_conversion, MediaFiles, MediaModel,
};
use crate::text_map::{byte_values, TextMap};
use std::io::Cursor;
use std::io::Read;
use vstd::prelude::*;
use vstd::utf8::{decode_utf8, valid_utf8};
use zip::ZipArchive;

verus! {

/// `std::io::Cursor`, which lets the archive read from a buffer.
#[verifier::external_type_specification]
#[verifier::external_body]
#[verifier::reject_recursive_types(T)]
pub struct ExCursor<T>(Cursor<T>);

/// `zip`'s archive reader; only the bytes it reads from are spoken of.
#[verifier::external_type_specification]
#[verifier::external_body]
#[verifier::reject_recursive_types(R)]
pub struct ExZipArchive<R>(ZipArchive<R>);

/// What asking an archive for an entry by name gives.
#[derive(Debug)]
pub enum EntryRead {
    /// The archive would not open an entry of that name, because it has
    /// none or for any other reason; the archive's own words.
    Missing(String),
    /// The entry is there but cannot be unpacked; the reader's own words.
    Unreadable(String),
    /// The entry's bytes.
    Found(Vec<u8>),
}

/// What an `EntryRead` says.
pub enum EntryModel {
    Missing(Seq<char>),
    Unreadable(Seq<char>),
    Found(Seq<u8>),
}

impl View for EntryRead {
    type V = EntryModel;

    open spec fn view(&self) -> EntryModel {
        match self {
            EntryRead::Missing(why) => EntryModel::Missing(why@),
            EntryRead::Unreadable(why) => EntryModel::Unreadable(why@),
            EntryRead::Found(data) => EntryModel::Found(data@),
        }
    }
}

/// The bytes that `archive` reads from.
pub uninterp spec fn archive_source(archive: ZipArchive<Cursor<Vec<u8>>>) -> Seq<u8>;

/// Why `zip` cannot open `bytes` as an archive, if it cannot.
pub uninterp spec fn zip_failure(bytes: Seq<u8>) -> Option<Seq<char>>;

/// How many entries the archive in `bytes` lists.
pub uninterp spec fn zip_entry_count(bytes: Seq<u8>) -> nat;

/// The name of the entry at `index` in the archive in `bytes`, if `zip` lists
/// such an entry and finds where its content begins.
pub uninterp spec fn zip_entry_name(bytes: Seq<u8>, index: int) -> Option<Seq<char>>;

/// What asking the archive in `bytes` for the entry `name` gives, no password
/// being known.
pub uninterp spec fn zip_entry(bytes: Seq<u8>, name: Seq<char>) -> EntryModel;

/// Calls `ZipArchive::new` on a cursor over `bytes`; an error is handed out
/// as the text it displays.
#[verifier::external_body]
fn open_archive(bytes: Vec<u8>) -> (opened: Result<ZipArchive<Cursor<Vec<u8>>>, String>)
    ensures
        match opened {
            Ok(archive) => zip_failure(bytes@) is None && archive_source(archive) == bytes@,
            Err(why) => zip_failure(bytes@) == Some(why@),
        },
{
    ZipArchive::new(Cursor::new(bytes)).map_err(|e| e.to_string())
}

/// Calls `ZipArchive::len`: the number of entries.
#[verifier::external_body]
fn entry_count(archive: &ZipArchive<Cursor<Vec<u8>>>) -> (count: usize)
    ensures
        count == zip_entry_count(archive_source(*archive)),
{
    archive.len()
}

/// Calls `ZipArchive::by_index_raw` and `ZipFile::name`: the name of the
/// entry at `index`, where the archive lists such an entry and finds where
/// its content begins. The archive reads from the same bytes afterwards.
#[verifier::external_body]
fn entry_name(archive: &mut ZipArchive<Cursor<Vec<u8>>>, index: usize) -> (name: Option<String>)
    ensures
        archive_source(*final(archive)) == archive_source(*old(archive)),
        match name {
            Some(n) => zip_entry_name(archive_source(*old(archive)), index as int) == Some(n@),
            None => zip_entry_name(archive_source(*old(archive)), index as int) is None,
        },
{
    archive.by_index_raw(index).ok().map(|file| file.name().to_string())
}

/// Calls `ZipArchive::by_name_decrypt` with the empty password and unpacks
/// the entry with `Read::read_to_end`. An entry that is not marked as
/// encrypted is opened without a password, and one that is marked is tried
/// with the empty one; an entry that the archive refuses for its password
/// counts as missing, like one that it does not list. The archive reads
/// from the same bytes afterwards.
#[verifier::external_body]
fn read_entry(archive: &mut ZipArchive<Cursor<Vec<u8>>>, name: &str) -> (entry: EntryRead)
    ensures
        archive_source(*final(archive)) == archive_source(*old(archive)),
        entry@ == zip_entry(archive_source(*old(archive)), name@),
{
    match archive.by_name_decrypt(name, &[]) {
        Err(e) => EntryRead::Missing(e.to_string()),
        Ok(Err(e)) => EntryRead::Missing(e.to_string()),
        Ok(Ok(mut file)) => {
            let mut data = Vec::new();
            match file.read_to_end(&mut data) {
                Ok(_) => EntryRead::Found(data),
                Err(e) => EntryRead::Unreadable(e.to_string()),
            }
        },
    }
}

/// Calls `String::from_utf8`: the text that `bytes` encode, if they are UTF-8.
#[verifier::external_body]
pub(crate) fn utf8_text(bytes: Vec<u8>) -> (text: Option<String>)
    ensures
        match text {
            Some(t) => valid_utf8(bytes@) && t@ == decode_utf8(bytes@),
            None => !valid_utf8(bytes@),
        },
{
    String::from_utf8(bytes).ok()
}

/// A workbook package, opened for reading.
pub struct Package {
    archive: ZipArchive<Cursor<Vec<u8>>>,
}

/// What reading a part of a package as text gives.
#[derive(Debug)]
pub enum PartText {
    /// The archive would not open a part of that name, because it has none
    /// or for any other reason; the archive's own words.
    Missing(String),
    /// The part cannot be unpacked or is not UTF-8; the reason.
    Unreadable(String),
    /// The part's text.
    Text(String),
}

/// What a `PartText` says.
pub enum PartModel {
    Missing(Seq<char>),
    Unreadable(Seq<char>),
    Text(Seq<char>),
}

impl View for PartText {
    type V = PartModel;

    open spec fn view(&self) -> PartModel {
        match self {
            PartText::Missing(why) => PartModel::Missing(why@),
            PartText::Unreadable(why) => PartModel::Unreadable(why@),
            PartText::Text(text) => PartModel::Text(text@),
        }
    }
}

/// An entry read as text: bytes that are not UTF-8 count as unreadable.
pub open spec fn part_of_entry(entry: EntryModel) -> PartModel {
    match entry {
        EntryModel::Missing(why) => PartModel::Missing(why),
        EntryModel::Unreadable(why) => PartModel::Unreadable(why),
        EntryModel::Found(data) => if valid_utf8(data) {
            PartModel::Text(decode_utf8(data))
        } else {
            PartModel::Unreadable("stream did not contain valid UTF-8"@)
        },
    }
}

/// The part `name` of the package in `bytes`, read as text.
pub open spec fn package_part(bytes: Seq<u8>, name: Seq<char>) -> PartModel {
    part_of_entry(zip_entry(bytes, name))
}

/// The bytes of the entry at `index` of the package in `bytes`, if the entry
/// has a name and can be unpacked.
pub open spec fn package_entry_data(bytes: Seq<u8>, index: int) -> Option<Seq<u8>> {
    match zip_entry_name(bytes, index) {
        Some(name) => match zip_entry(bytes, name) {
            EntryModel::Found(data) => Some(data),
            _ => None,
        },
        None => None,
    }
}

/// What a converter made of the entry `name`, if it made anything.
pub open spec fn conversion_for(conversions: Map<Seq<char>, Seq<u8>>, name: Seq<char>) -> Option<
    Seq<u8>,
> {
    if conversions.contains_key(name) {
        Some(conversions[name])
    } else {
        None
    }
}

/// The pictures among the first `count` entries of the package in `bytes`,
/// sorted entry by entry; an entry without a name is passed over.
/// `conversions` holds, by entry name, the PNG bytes that a converter made
/// of the entries that wanted conversion.
pub open spec fn package_media(
    bytes: Seq<u8>,
    count: nat,
    conversions: Map<Seq<char>, Seq<u8>>,
) -> MediaModel
    decreases count,
{
    if count == 0 {
        no_media()
    } else {
        let before = package_media(bytes, (count - 1) as nat, conversions);
        match zip_entry_name(bytes, count - 1) {
            Some(name) => media_step(
                before,
                name,
                package_entry_data(bytes, count - 1),
                conversion_for(conversions, name),
            ),
            None => before,
        }
    }
}

/// The entries among the first `count` of the package in `bytes` that want
/// conversion, in order: each with its name and its bytes.
pub open spec fn package_candidates(bytes: Seq<u8>, count: nat) -> Seq<(Seq<char>, Seq<u8>)>
    decreases count,
{
    if count == 0 {
        Seq::empty()
    } else {
        let before = package_candidates(bytes, (count - 1) as nat);
        match (zip_entry_name(bytes, count - 1), package_entry_data(bytes, count - 1)) {
            (Some(name), Some(data)) if is_media_path(name) && wants_conversion(data) => before.push(
                (name, data),
            ),
            _ => before,
        }
    }
}

/// What a list of named buffers says.
pub open spec fn candidates_model(list: Seq<(String, Vec<u8>)>) -> Seq<(Seq<char>, Seq<u8>)> {
    list.map_values(|c: (String, Vec<u8>)| (c.0@, c.1@))
}

impl Package {
    /// The bytes that the package was opened on.
    pub closed spec fn source(&self) -> Seq<u8> {
        archive_source(self.archive)
    }

    /// Opens the package held in `bytes`; where `zip` cannot, the error is
    /// its reason.
    pub fn open(bytes: Vec<u8>) -> (opened: Result<Package, String>)
        ensures
            match opened {
                Ok(package) => zip_failure(bytes@) is None && package.source() == bytes@,
                Err(why) => zip_failure(bytes@) == Some(why@),
            },
    {
        match open_archive(bytes) {
            Ok(archive) => Ok(Package { archive }),
            Err(why) => Err(why),
        }
    }

    /// Reads the part `name` as text.
    pub fn read_part(&mut self, name: &str) -> (part: PartText)
        ensures
            final(self).source() == old(self).source(),
            part@ == package_part(old(self).source(), name@),
    {
        match read_entry(&mut self.archive, name) {
            EntryRead::Missing(why) => PartText::Missing(why),
            EntryRead::Unreadable(why) => PartText::Unreadable(why),
            EntryRead::Found(data) => match utf8_text(data) {
                Some(text) => PartText::Text(text),
                None => PartText::Unreadable(
                    String::from_str("stream did not contain valid UTF-8"),
                ),
            },
        }
    }

    /// The entries that want conversion before the pictures can be sorted:
    /// those in the picture folders that are framed as WebP.
    pub fn conversion_candidates(&mut self) -> (candidates: Vec<(String, Vec<u8>)>)
        ensures
            final(self).source() == old(self).source(),
            candidates_model(candidates@) == package_candidates(
                old(self).source(),
                zip_entry_count(old(self).source()),
            ),
    {
        let ghost bytes = self.source();
        let count = entry_count(&self.archive);
        let mut candidates: Vec<(String, Vec<u8>)> = Vec::new();
        let mut index: usize = 0;
        assert(candidates_model(candidates@) =~= package_candidates(bytes, 0));
        while index < count
            invariant
                index <= count,
                count == zip_entry_count(bytes),
                self.source() == bytes,
                candidates_model(candidates@) == package_candidates(bytes, index as nat),
            decreases count - index,
        {
            match entry_name(&mut self.archive, index) {
                Some(name) => {
                    if is_media_entry(name.as_str()) {
                        match read_entry(&mut self.archive, name.as_str()) {
                            EntryRead::Found(data) => {
                                if needs_conversion(data.as_slice()) {
                                    let ghost before = candidates@;
                                    let ghost pair = (name@, data@);
                                    candidates.push((name, data));
                                    assert(candidates_model(candidates@) =~= candidates_model(
                                        before,
                                    ).push(pair));
                                }
                            },
                            _ => {},
                        }
                    }
                },
                None => {},
            }
            index += 1;
        }
        candidates
    }

    /// Sorts the pictures that the package carries. `conversions` holds, by
    /// entry name, what a converter made of the entries that wanted
    /// conversion; an entry that wanted it and is not there counts as
    /// unsupported.
    pub fn read_media_files(&mut self, conversions: &TextMap<Vec<u8>>) -> (media: MediaFiles)
        ensures
            final(self).source() == old(self).source(),
            media@ == package_media(
                old(self).source(),
                zip_entry_count(old(self).source()),
                byte_values(conversions@),
            ),
    {
        let ghost bytes = self.source();
        let ghost made = byte_values(conversions@);
        let count = entry_count(&self.archive);
        let mut media = MediaFiles::new();
        let mut index: usize = 0;
        while index < count
            invariant
                index <= count,
                count == zip_entry_count(bytes),
                self.source() == bytes,
                made == byte_values(conversions@),
                media@ == package_media(bytes, index as nat, made),
            decreases count - index,
        {
            match entry_name(&mut self.archive, index) {
                Some(name) => {
                    let data = if is_media_entry(name.as_str()) {
                        match read_entry(&mut self.archive, name.as_str()) {
                            EntryRead::Found(data) => Some(data),
                            _ => None,
                        }
                    } else {
                        None
                    };
                    let png = match conversions.get(name.as_str()) {
                        Some(bytes) => Some(bytes.clone()),
                        None => None,
                    };
                    assert(bytes_of(png) == conversion_for(made, name@));
                    media.note(name.as_str(), data, png);
                },
                None => {},
            }
            index += 1;
        }
        media
    }
}

} // verus!
