//! The pictures a package carries: which ones can be used as they are,
//! which ones after conversion, and which ones not at all.

use crate::commands::excel::relationships::{file_name, file_name_of};
use crate::text::{after_last, after_last_of, begins_with, contains_text, has_text, starts_with};
use crate::text_map::TextMap;
use vstd::prelude::*;

verus! {

/// `data` begins with the bytes `magic`.
pub open spec fn has_magic(data: Seq<u8>, magic: Seq<u8>) -> bool {
    data.len() >= magic.len() && forall|i: int| 0 <= i < magic.len() ==> data[i] == magic[i]
}

/// `data` is at least eight bytes long and begins as a PNG, JPEG, GIF or
/// BMP file does.
pub open spec fn is_accepted_image(data: Seq<u8>) -> bool {
    data.len() >= 8 && (has_magic(data, seq![0x89u8, 0x50, 0x4E, 0x47, 0x0D, 0x0A, 0x1A, 0x0A])
        || has_magic(data, seq![0xFFu8, 0xD8, 0xFF]) || has_magic(
        data,
        seq![0x47u8, 0x49, 0x46, 0x38, 0x37, 0x61],
    ) || has_magic(data, seq![0x47u8, 0x49, 0x46, 0x38, 0x39, 0x61]) || has_magic(
        data,
        seq![0x42u8, 0x4D],
    ))
}

/// Whether `data` is a picture in a format that can be embedded as it is:
/// PNG, JPEG, GIF or BMP, told by the first bytes.
pub fn is_valid_image(data: &[u8]) -> (valid: bool)
    ensures
        valid == is_accepted_image(data@),
{
    if data.len() < 8 {
        return false;
    }
    let png = data[0] == 0x89 && data[1] == 0x50 && data[2] == 0x4E && data[3] == 0x47 && data[4]
        == 0x0D && data[5] == 0x0A && data[6] == 0x1A && data[7] == 0x0A;
    let jpeg = data[0] == 0xFF && data[1] == 0xD8 && data[2] == 0xFF;
    let gif = data[0] == 0x47 && data[1] == 0x49 && data[2] == 0x46 && data[3] == 0x38 && (data[4]
        == 0x37 || data[4] == 0x39) && data[5] == 0x61;
    let bmp = data[0] == 0x42 && data[1] == 0x4D;
    proof {
        let d = data@;
        let png_magic = seq![0x89u8, 0x50, 0x4E, 0x47, 0x0D, 0x0A, 0x1A, 0x0A];
        let jpeg_magic = seq![0xFFu8, 0xD8, 0xFF];
        let gif87 = seq![0x47u8, 0x49, 0x46, 0x38, 0x37, 0x61];
        let gif89 = seq![0x47u8, 0x49, 0x46, 0x38, 0x39, 0x61];
        let bmp_magic = seq![0x42u8, 0x4D];
        assert(has_magic(d, png_magic) ==> d[0] == png_magic[0] && d[1] == png_magic[1] && d[2]
            == png_magic[2] && d[3] == png_magic[3] && d[4] == png_magic[4] && d[5] == png_magic[5]
            && d[6] == png_magic[6] && d[7] == png_magic[7]);
        assert(has_magic(d, jpeg_magic) ==> d[0] == jpeg_magic[0] && d[1] == jpeg_magic[1] && d[2]
            == jpeg_magic[2]);
        assert(has_magic(d, gif87) ==> d[0] == gif87[0] && d[1] == gif87[1] && d[2] == gif87[2]
            && d[3] == gif87[3] && d[4] == gif87[4] && d[5] == gif87[5]);
        assert(has_magic(d, gif89) ==> d[0] == gif89[0] && d[1] == gif89[1] && d[2] == gif89[2]
            && d[3] == gif89[3] && d[4] == gif89[4] && d[5] == gif89[5]);
        assert(has_magic(d, bmp_magic) ==> d[0] == bmp_magic[0] && d[1] == bmp_magic[1]);
    }
    png || jpeg || gif || bmp
}

/// `data` is framed as a WebP file: a RIFF container of more than twelve
/// bytes whose form type is `WEBP`.
pub open spec fn is_webp(data: Seq<u8>) -> bool {
    data.len() > 12 && has_magic(data, seq![0x52u8, 0x49, 0x46, 0x46]) && has_magic(
        data.skip(8),
        seq![0x57u8, 0x45, 0x42, 0x50],
    )
}

/// Whether `data` is framed as a WebP file.
pub fn looks_like_webp(data: &[u8]) -> (yes: bool)
    ensures
        yes == is_webp(data@),
{
    if data.len() <= 12 {
        return false;
    }
    let riff = data[0] == 0x52 && data[1] == 0x49 && data[2] == 0x46 && data[3] == 0x46;
    let webp = data[8] == 0x57 && data[9] == 0x45 && data[10] == 0x42 && data[11] == 0x50;
    proof {
        let d = data@;
        let t = data@.skip(8);
        let riff_magic = seq![0x52u8, 0x49, 0x46, 0x46];
        let webp_magic = seq![0x57u8, 0x45, 0x42, 0x50];
        assert(t[0] == d[8] && t[1] == d[9] && t[2] == d[10] && t[3] == d[11]);
        assert(has_magic(d, riff_magic) ==> d[0] == riff_magic[0] && d[1] == riff_magic[1] && d[2]
            == riff_magic[2] && d[3] == riff_magic[3]);
        assert(has_magic(t, webp_magic) ==> t[0] == webp_magic[0] && t[1] == webp_magic[1] && t[2]
            == webp_magic[2] && t[3] == webp_magic[3]);
    }
    riff && webp
}

/// `data` is a picture that cannot be embedded as it stands but is framed
/// as one that can be converted: at least eight bytes, not in an accepted
/// format, and framed as WebP.
pub open spec fn wants_conversion(data: Seq<u8>) -> bool {
    data.len() >= 8 && !is_accepted_image(data) && is_webp(data)
}

/// Whether `data` is a picture to hand to a converter.
pub fn needs_conversion(data: &[u8]) -> (yes: bool)
    ensures
        yes == wants_conversion(data@),
{
    data.len() >= 8 && !is_valid_image(data) && looks_like_webp(data)
}

/// What stands in for `data` once a converter has had its say: the PNG
/// bytes that it made of a file framed as WebP, and nothing where the file
/// is framed otherwise or the converter made nothing of it.
pub open spec fn converted_image(data: Seq<u8>, png: Option<Seq<u8>>) -> Option<Seq<u8>> {
    if is_webp(data) {
        png
    } else {
        None
    }
}

/// Takes over the PNG that a converter made of a picture, together with the
/// name of the format it came from. Only what is framed as WebP is taken
/// over; decoding and encoding are the converter's business.
pub fn try_convert_image(data: &[u8], png: Option<Vec<u8>>) -> (converted: Option<
    (Vec<u8>, String),
>)
    ensures
        match converted {
            Some((bytes, from)) => converted_image(data@, bytes_of(png)) == Some(bytes@) && from@
                == "WebP"@,
            None => converted_image(data@, bytes_of(png)) is None,
        },
{
    if !looks_like_webp(data) {
        return None;
    }
    match png {
        Some(bytes) => Some((bytes, String::from_str("WebP"))),
        None => None,
    }
}

/// A picture file that can be embedded: its bytes and its extension.
#[derive(Debug)]
pub struct MediaFile {
    pub data: Vec<u8>,
    pub extension: String,
}

/// What a `MediaFile` says.
pub struct FileModel {
    pub data: Seq<u8>,
    pub extension: Seq<char>,
}

impl View for MediaFile {
    type V = FileModel;

    open spec fn view(&self) -> FileModel {
        FileModel { data: self.data@, extension: self.extension@ }
    }
}

/// A map of picture files, read as what the files say.
pub open spec fn file_values(map: Map<Seq<char>, MediaFile>) -> Map<Seq<char>, FileModel> {
    map.map_values(|f: MediaFile| f@)
}

/// Reading a map of picture files as what they say goes along with inserting.
pub proof fn lemma_file_values_insert(map: Map<Seq<char>, MediaFile>, key: Seq<char>, value: MediaFile)
    ensures
        file_values(map.insert(key, value)) == file_values(map).insert(key, value@),
{
    assert(file_values(map.insert(key, value)) =~= file_values(map).insert(key, value@));
}

/// The pictures of a package, sorted into those that can be embedded (by
/// file name), those among them that had to be converted, and those left out.
#[derive(Debug)]
pub struct MediaFiles {
    pub files: TextMap<MediaFile>,
    pub converted: Vec<String>,
    pub unsupported: Vec<String>,
}

/// What a `MediaFiles` says.
pub struct MediaModel {
    pub files: Map<Seq<char>, FileModel>,
    pub converted: Seq<Seq<char>>,
    pub unsupported: Seq<Seq<char>>,
}

/// A list of strings, read as texts.
pub open spec fn names_of(list: Seq<String>) -> Seq<Seq<char>> {
    list.map_values(|s: String| s@)
}

impl View for MediaFiles {
    type V = MediaModel;

    open spec fn view(&self) -> MediaModel {
        MediaModel {
            files: file_values(self.files@),
            converted: names_of(self.converted@),
            unsupported: names_of(self.unsupported@),
        }
    }
}

/// The entry `name` lies where packages keep pictures.
pub open spec fn is_media_path(name: Seq<char>) -> bool {
    begins_with(name, "xl/media/"@) || begins_with(name, "xl/embeddings/"@) || contains_text(
        name,
        "/media/"@,
    )
}

/// No picture at all.
pub open spec fn no_media() -> MediaModel {
    MediaModel { files: Map::empty(), converted: Seq::empty(), unsupported: Seq::empty() }
}

/// How a converted picture is listed: its file name and the conversion made.
pub open spec fn conversion_label(file: Seq<char>) -> Seq<char> {
    file + " ("@ + "WebP"@ + "->PNG)"@
}

/// The effect of one package entry on the sorting; `png` is what a
/// converter made of the entry, if it was asked and made anything. An entry
/// outside the picture folders, one that cannot be read, or one shorter than
/// eight bytes changes nothing. A picture in an accepted format is filed
/// under its file name with the extension that follows the name's last
/// point; one that was converted is filed as `png` and listed as converted;
/// any other is listed as unsupported.
pub open spec fn media_step(
    state: MediaModel,
    name: Seq<char>,
    data: Option<Seq<u8>>,
    png: Option<Seq<u8>>,
) -> MediaModel {
    match data {
        Some(d) if is_media_path(name) && d.len() >= 8 => {
            let file = file_name(name);
            if is_accepted_image(d) {
                MediaModel {
                    files: state.files.insert(
                        file,
                        FileModel { data: d, extension: after_last(file, '.') },
                    ),
                    ..state
                }
            } else {
                match converted_image(d, png) {
                    Some(png) => MediaModel {
                        files: state.files.insert(
                            file,
                            FileModel { data: png, extension: "png"@ },
                        ),
                        converted: state.converted.push(conversion_label(file)),
                        ..state
                    },
                    None => MediaModel { unsupported: state.unsupported.push(file), ..state },
                }
            }
        },
        _ => state,
    }
}

/// The bytes of an optional buffer.
pub open spec fn bytes_of(data: Option<Vec<u8>>) -> Option<Seq<u8>> {
    match data {
        Some(d) => Some(d@),
        None => None,
    }
}

/// Whether the entry `name` lies where packages keep pictures.
pub fn is_media_entry(name: &str) -> (yes: bool)
    ensures
        yes == is_media_path(name@),
{
    starts_with(name, "xl/media/") || starts_with(name, "xl/embeddings/") || has_text(
        name,
        "/media/",
    )
}

impl MediaFiles {
    /// No picture at all.
    pub fn new() -> (media: Self)
        ensures
            media@ == no_media(),
    {
        let media = MediaFiles {
            files: TextMap::new(),
            converted: Vec::new(),
            unsupported: Vec::new(),
        };
        proof {
            assert(file_values(media.files@) =~= Map::<Seq<char>, FileModel>::empty());
            assert(names_of(media.converted@) =~= Seq::<Seq<char>>::empty());
            assert(names_of(media.unsupported@) =~= Seq::<Seq<char>>::empty());
        }
        media
    }

    /// Sorts in the package entry `name` with the bytes it holds, if it
    /// could be read, and with what a converter made of them, if anything.
    pub fn note(&mut self, name: &str, data: Option<Vec<u8>>, png: Option<Vec<u8>>)
        ensures
            final(self)@ == media_step(old(self)@, name@, bytes_of(data), bytes_of(png)),
    {
        if !is_media_entry(name) {
            return ;
        }
        let data = match data {
            Some(d) => d,
            None => {
                return ;
            },
        };
        if data.len() < 8 {
            return ;
        }
        let file = file_name_of(name);
        if is_valid_image(data.as_slice()) {
            let extension = after_last_of(file.as_str(), '.');
            let entry = MediaFile { data, extension };
            proof {
                lemma_file_values_insert(self.files@, file@, entry);
            }
            self.files.insert(file, entry);
        } else {
            match try_convert_image(data.as_slice(), png) {
                Some((png, _)) => {
                    let mut label = file.clone();
                    label.append(" (");
                    label.append("WebP");
                    label.append("->PNG)");
                    let entry = MediaFile { data: png, extension: String::from_str("png") };
                    proof {
                        lemma_file_values_insert(self.files@, file@, entry);
                    }
                    let ghost before = self.converted@;
                    self.files.insert(file, entry);
                    self.converted.push(label);
                    assert(names_of(self.converted@) =~= names_of(before).push(label@));
                },
                None => {
                    let ghost before = self.unsupported@;
                    self.unsupported.push(file);
                    assert(names_of(self.unsupported@) =~= names_of(before).push(file@));
                },
            }
        }
    }
}

} // verus!
