//! Archives of course files: which entries are courses, which thumbnail
//! belongs to which course, and the reading of ZIP and TAR archives.

use crate::encryption::bytes_equal;
use crate::errors::SmmdbError;
use crate::wire::{copy_range, le_u64, read_u64_le};
use brotli2::read::BrotliDecoder;
use std::io::{Cursor, Read};
use vstd::pervasive::unreached;
use vstd::prelude::*;
use zip::result::ZipError;
use zip::ZipArchive;
use vstd::string::*;
use vstd::utf8::{encode_utf8, encode_utf8_decode_utf8};

verus! {

/// `course_data_`: what stands in front of the number of a course file.
pub const COURSE_DATA_PREFIX: [u8; 12] = [
    0x63, 0x6F, 0x75, 0x72, 0x73, 0x65, 0x5F, 0x64, 0x61, 0x74, 0x61, 0x5F,
];

/// `course_thumb_`: what stands in front of the number of a thumbnail file.
pub const COURSE_THUMB_PREFIX: [u8; 13] = [
    0x63, 0x6F, 0x75, 0x72, 0x73, 0x65, 0x5F, 0x74, 0x68, 0x75, 0x6D, 0x62, 0x5F,
];

/// `.bcd`: the extension of an encrypted course file.
pub const BCD_EXTENSION: [u8; 4] = [0x2E, 0x62, 0x63, 0x64];

/// `.btl`: the extension of an encrypted thumbnail file.
pub const BTL_EXTENSION: [u8; 4] = [0x2E, 0x62, 0x74, 0x6C];

/// `.br`: the extension of a compressed course file.
pub const BR_EXTENSION: [u8; 3] = [0x2E, 0x62, 0x72];

/// An ASCII decimal digit.
pub open spec fn is_digit(b: u8) -> bool {
    0x30 <= b <= 0x39
}

/// The three digits of a name that ends in `prefix`, three decimal digits
/// and `extension`; `None` for any other name. What stands in front of the
/// prefix does not matter.
pub open spec fn file_number(name: Seq<u8>, prefix: Seq<u8>, extension: Seq<u8>) -> Option<
    Seq<u8>,
> {
    let start = name.len() - (prefix.len() + 3 + extension.len());
    let digits = name.subrange(start + prefix.len(), start + prefix.len() + 3);
    if start >= 0 && name.subrange(start, start + prefix.len()) == prefix && is_digit(digits[0])
        && is_digit(digits[1]) && is_digit(digits[2]) && name.subrange(
        start + prefix.len() + 3,
        name.len() as int,
    ) == extension {
        Some(digits)
    } else {
        None
    }
}

/// The number of an encrypted course file: of a name that ends in
/// `course_data_NNN.bcd`.
pub open spec fn course_file_number(name: Seq<u8>) -> Option<Seq<u8>> {
    file_number(name, COURSE_DATA_PREFIX@, BCD_EXTENSION@)
}

/// The number of a compressed course file: of a name that ends in
/// `course_data_NNN.br`.
pub open spec fn compressed_file_number(name: Seq<u8>) -> Option<Seq<u8>> {
    file_number(name, COURSE_DATA_PREFIX@, BR_EXTENSION@)
}

/// The number of a thumbnail file: of a name that ends in
/// `course_thumb_NNN.btl`.
pub open spec fn thumb_file_number(name: Seq<u8>) -> Option<Seq<u8>> {
    file_number(name, COURSE_THUMB_PREFIX@, BTL_EXTENSION@)
}

/// Reads the number of a name that ends in `prefix`, three decimal digits
/// and `extension`.
pub fn match_file_number(name: &[u8], prefix: &[u8], extension: &[u8]) -> (res: Option<[u8; 3]>)
    requires
        prefix@.len() + 3 + extension@.len() <= usize::MAX,
    ensures
        match res {
            Some(digits) => file_number(name@, prefix@, extension@) == Some(digits@),
            None => file_number(name@, prefix@, extension@) is None,
        },
{
    let total: usize = prefix.len() + 3 + extension.len();
    if name.len() < total {
        return None;
    }
    let start: usize = name.len() - total;
    let head: Vec<u8> = copy_range(name, start, start + prefix.len());
    if !bytes_equal(head.as_slice(), prefix) {
        return None;
    }
    let at: usize = start + prefix.len();
    let digits: [u8; 3] = [name[at], name[at + 1], name[at + 2]];
    assert(digits@ =~= name@.subrange(at as int, at + 3));
    if !(0x30 <= digits[0] && digits[0] <= 0x39 && 0x30 <= digits[1] && digits[1] <= 0x39 && 0x30
        <= digits[2] && digits[2] <= 0x39) {
        return None;
    }
    let tail: Vec<u8> = copy_range(name, at + 3, name.len());
    if !bytes_equal(tail.as_slice(), extension) {
        return None;
    }
    Some(digits)
}

/// The bytes of the name of an entry, where the entry has a name that can be
/// read.
pub open spec fn name_bytes(name: Option<Seq<char>>) -> Option<Seq<u8>> {
    match name {
        Some(text) => Some(encode_utf8(text)),
        None => None,
    }
}

/// What exec names say: their characters.
pub open spec fn names_view(names: Seq<Option<String>>) -> Seq<Option<Seq<char>>> {
    Seq::new(names.len(), |i: int| name_view(names[i]))
}

/// The first entry from `from` on that is the thumbnail with the given
/// number.
pub open spec fn first_thumb(
    names: Seq<Option<Seq<char>>>,
    digits: Seq<u8>,
    from: int,
) -> Option<int>
    decreases names.len() - from,
{
    if from < 0 || from >= names.len() {
        None
    } else if names[from] is Some && thumb_file_number(name_bytes(names[from]).unwrap()) == Some(
        digits,
    ) {
        Some(from)
    } else {
        first_thumb(names, digits, from + 1)
    }
}

/// Which number an entry has as a course: that of its encrypted course
/// file, or, where compressed files count, that of its compressed course
/// file.
pub open spec fn entry_course_number(name: Option<Seq<char>>, compressed: bool) -> Option<
    Seq<u8>,
> {
    match name_bytes(name) {
        Some(bytes) => if course_file_number(bytes) is Some {
            course_file_number(bytes)
        } else if compressed {
            compressed_file_number(bytes)
        } else {
            None
        },
        None => None,
    }
}

/// The pairs of a course entry and its thumbnail entry among the first `n`
/// entries, in the order of the course entries. A course entry without a
/// thumbnail of the same number is left out; the thumbnail is the first
/// entry of the archive with that number.
pub open spec fn pairs_upto(names: Seq<Option<Seq<char>>>, compressed: bool, n: int) -> Seq<
    (usize, usize),
>
    decreases n,
{
    if n <= 0 {
        Seq::empty()
    } else {
        let before = pairs_upto(names, compressed, n - 1);
        match entry_course_number(names[n - 1], compressed) {
            Some(digits) => match first_thumb(names, digits, 0) {
                Some(thumb) => before.push(((n - 1) as usize, thumb as usize)),
                None => before,
            },
            None => before,
        }
    }
}

/// Finds the first entry that is the thumbnail with the given number.
pub fn find_thumb(names: &Vec<Option<String>>, digits: &[u8; 3]) -> (res: Option<usize>)
    ensures
        match res {
            Some(at) => first_thumb(names_view(names@), digits@, 0) == Some(at as int) && at
                < names@.len() && names@[at as int] is Some,
            None => first_thumb(names_view(names@), digits@, 0) is None,
        },
{
    let mut k: usize = 0;
    while k < names.len()
        invariant
            0 <= k <= names@.len(),
            first_thumb(names_view(names@), digits@, 0) == first_thumb(
                names_view(names@),
                digits@,
                k as int,
            ),
        decreases names@.len() - k,
    {
        if let Some(name) = &names[k] {
            match match_file_number(
                name.as_str().as_bytes(),
                COURSE_THUMB_PREFIX.as_slice(),
                BTL_EXTENSION.as_slice(),
            ) {
                Some(found) => {
                    if bytes_equal(found.as_slice(), digits.as_slice()) {
                        return Some(k);
                    }
                },
                None => {},
            }
        }
        k += 1;
    }
    None
}

/// The number of an entry as a course.
pub fn course_number_of(name: &Option<String>, compressed: bool) -> (res: Option<[u8; 3]>)
    ensures
        match res {
            Some(digits) => entry_course_number(name_view(*name), compressed) == Some(digits@),
            None => entry_course_number(name_view(*name), compressed) is None,
        },
{
    match name {
        Some(text) => {
            let bytes: &[u8] = text.as_str().as_bytes();
            match match_file_number(bytes, COURSE_DATA_PREFIX.as_slice(), BCD_EXTENSION.as_slice()) {
                Some(digits) => Some(digits),
                None => {
                    if compressed {
                        match_file_number(
                            bytes,
                            COURSE_DATA_PREFIX.as_slice(),
                            BR_EXTENSION.as_slice(),
                        )
                    } else {
                        None
                    }
                },
            }
        },
        None => None,
    }
}

/// Pairs each course entry of an archive with its thumbnail entry.
pub fn get_course_files(names: &Vec<Option<String>>, compressed: bool) -> (pairs: Vec<
    (usize, usize),
>)
    ensures
        pairs@ == pairs_upto(names_view(names@), compressed, names@.len() as int),
        forall|k: int|
            0 <= k < pairs@.len() ==> (#[trigger] pairs@[k]).0 < names@.len() && pairs@[k].1
                < names@.len() && names@[pairs@[k].0 as int] is Some && names@[pairs@[k].1 as int] is Some,
{
    let mut pairs: Vec<(usize, usize)> = Vec::new();
    let mut i: usize = 0;
    while i < names.len()
        invariant
            0 <= i <= names@.len(),
            pairs@ == pairs_upto(names_view(names@), compressed, i as int),
            forall|k: int|
                0 <= k < pairs@.len() ==> (#[trigger] pairs@[k]).0 < names@.len() && pairs@[k].1
                    < names@.len() && names@[pairs@[k].0 as int] is Some && names@[pairs@[k].1 as int] is Some,
        decreases names@.len() - i,
    {
        match course_number_of(&names[i], compressed) {
            Some(digits) => {
                match find_thumb(names, &digits) {
                    Some(thumb) => {
                        pairs.push((i, thumb));
                    },
                    None => {},
                }
            },
            None => {},
        }
        i += 1;
    }
    pairs
}

/// The ZIP archive reader of `zip`.
#[verifier::external_type_specification]
#[verifier::external_body]
#[verifier::reject_recursive_types(R)]
pub struct ExZipArchive<R>(ZipArchive<R>);

/// The in-memory reader of std.
#[verifier::external_type_specification]
#[verifier::external_body]
#[verifier::reject_recursive_types(T)]
pub struct ExCursor<T>(Cursor<T>);

/// The bytes that a ZIP archive reader was opened on.
pub uninterp spec fn zip_source(archive: ZipArchive<Cursor<Vec<u8>>>) -> Seq<u8>;

/// The names of the entries of the ZIP archive in a buffer, in the order of
/// its directory, `None` for an entry that cannot be opened; or `None` where
/// the buffer holds no ZIP archive.
pub uninterp spec fn zip_entry_names(buffer: Seq<u8>) -> Option<Seq<Option<Seq<char>>>>;

/// The content of the entry with the given name of the ZIP archive in a
/// buffer, or `None` where no entry has the name or it cannot be read.
pub uninterp spec fn zip_entry_data(buffer: Seq<u8>, name: Seq<char>) -> Option<Seq<u8>>;

/// No eight bytes of the buffer, read as a number with the least significant
/// byte first, reach past 64 bits when the length of the buffer is added to
/// them. An entry of an archive may take the offset of its header from eight
/// such bytes, and the reader adds to it, unchecked, the number of bytes that
/// stand in front of the archive, which is no more than the length.
pub open spec fn offsets_in_reach(buffer: Seq<u8>) -> bool {
    forall|i: int|
        0 <= i && i + 8 <= buffer.len() ==> #[trigger] le_u64(buffer, i) as int + buffer.len()
            <= u64::MAX
}

/// Whether no eight bytes of the buffer give an offset out of reach.
pub fn check_offsets_in_reach(buffer: &[u8]) -> (res: bool)
    ensures
        res == offsets_in_reach(buffer@),
{
    let len: usize = buffer.len();
    if len < 8 {
        return true;
    }
    let limit: u64 = u64::MAX - len as u64;
    let mut i: usize = 0;
    while i <= len - 8
        invariant
            8 <= len == buffer@.len(),
            limit == u64::MAX - len,
            0 <= i <= len - 7,
            forall|k: int| 0 <= k < i ==> #[trigger] le_u64(buffer@, k) as int + len <= u64::MAX,
        decreases len - i,
    {
        if read_u64_le(buffer, i) > limit {
            return false;
        }
        i += 1;
    }
    true
}

/// Trusted: calls `ZipArchive::new` of `zip`, which reads the directory of
/// an archive. The contract says that a reader comes back exactly for a
/// buffer that holds an archive, and that the reader is one on that buffer.
/// The call adds the bytes in front of the archive to an entry's header
/// offset without a check, so a buffer that holds an offset out of reach is
/// left out.
#[verifier::external_body]
fn zip_open(buffer: Vec<u8>) -> (res: Result<ZipArchive<Cursor<Vec<u8>>>, ZipError>)
    requires
        offsets_in_reach(buffer@),
    ensures
        res is Ok <==> zip_entry_names(buffer@) is Some,
        res is Ok ==> zip_source(res.unwrap()) == buffer@,
{
    ZipArchive::new(Cursor::new(buffer))
}

/// Trusted: calls `ZipArchive::len` of `zip`. The contract says that it is
/// the number of entries of the archive's directory.
#[verifier::external_body]
fn zip_len(archive: &ZipArchive<Cursor<Vec<u8>>>) -> (len: usize)
    ensures
        zip_entry_names(zip_source(*archive)) is Some ==> len == zip_entry_names(
            zip_source(*archive),
        ).unwrap().len(),
{
    archive.len()
}

/// What an exec name says: its characters.
pub open spec fn name_view(name: Option<String>) -> Option<Seq<char>> {
    match name {
        Some(text) => Some(text@),
        None => None,
    }
}

/// What an exec content says: its bytes.
pub open spec fn data_view(data: Option<Vec<u8>>) -> Option<Seq<u8>> {
    match data {
        Some(bytes) => Some(bytes@),
        None => None,
    }
}

/// Trusted: calls `ZipArchive::by_index` and `ZipFile::name` of `zip`. The
/// contract says that the name of the entry comes back, or `None` where the
/// entry cannot be opened, and that the reader stays one on the same buffer.
#[verifier::external_body]
fn zip_name_at(archive: &mut ZipArchive<Cursor<Vec<u8>>>, index: usize) -> (name: Option<String>)
    requires
        zip_entry_names(zip_source(*old(archive))) is Some,
        index < zip_entry_names(zip_source(*old(archive))).unwrap().len(),
    ensures
        name_view(name) == zip_entry_names(zip_source(*old(archive))).unwrap()[index as int],
        zip_source(*final(archive)) == zip_source(*old(archive)),
{
    archive.by_index(index).ok().map(|file| file.name().to_owned())
}

/// Trusted: calls `ZipArchive::by_name` of `zip` and reads the entry to its
/// end. The contract says that the content of the entry comes back, or the
/// error where no entry has the name or it cannot be read, and that the
/// reader stays one on the same buffer.
#[verifier::external_body]
fn zip_read(archive: &mut ZipArchive<Cursor<Vec<u8>>>, name: &str) -> (res: Result<
    Vec<u8>,
    ZipError,
>)
    ensures
        match res {
            Ok(data) => zip_entry_data(zip_source(*old(archive)), name@) == Some(data@),
            Err(_) => zip_entry_data(zip_source(*old(archive)), name@) is None,
        },
        zip_source(*final(archive)) == zip_source(*old(archive)),
{
    let mut file = archive.by_name(name)?;
    let mut data = Vec::new();
    file.read_to_end(&mut data)?;
    Ok(data)
}

/// The files of one course as they lie in an archive: the course file and
/// the encrypted thumbnail. Of a compressed course the decompressed bytes are
/// given: a plain course without trailer.
#[derive(Clone, Debug, PartialEq, Eq)]
pub struct PackedCourse {
    pub data: Vec<u8>,
    pub thumb: Vec<u8>,
    pub compressed: bool,
}

/// The files of one course, their bytes as sequences.
pub struct PackedView {
    pub data: Seq<u8>,
    pub thumb: Seq<u8>,
    pub compressed: bool,
}

impl View for PackedCourse {
    type V = PackedView;

    open spec fn view(&self) -> PackedView {
        PackedView { data: self.data@, thumb: self.thumb@, compressed: self.compressed }
    }
}

/// The files of each course of a list.
pub open spec fn packed_view(files: Seq<PackedCourse>) -> Seq<PackedView> {
    Seq::new(files.len(), |i: int| files[i]@)
}

/// The files of the first `n` pairs of a ZIP archive, or `None` where one of
/// these files cannot be read.
pub open spec fn zip_files_upto(
    buffer: Seq<u8>,
    names: Seq<Option<Seq<char>>>,
    pairs: Seq<(usize, usize)>,
    n: int,
) -> Option<Seq<PackedView>>
    decreases n,
{
    if n <= 0 {
        Some(Seq::empty())
    } else {
        match zip_files_upto(buffer, names, pairs, n - 1) {
            Some(before) => match (
                zip_entry_data(buffer, names[pairs[n - 1].0 as int].unwrap()),
                zip_entry_data(buffer, names[pairs[n - 1].1 as int].unwrap()),
            ) {
                (Some(data), Some(thumb)) => Some(
                    before.push(PackedView { data, thumb, compressed: false }),
                ),
                _ => None,
            },
            None => None,
        }
    }
}

/// The files of the courses of the ZIP archive in a buffer: of each entry
/// that is a course file and has a thumbnail of its number, in the order of
/// the archive. `None` where the buffer holds no archive or one of these
/// files cannot be read.
pub open spec fn zip_course_files_of(buffer: Seq<u8>) -> Option<Seq<PackedView>> {
    match zip_entry_names(buffer) {
        Some(names) => if offsets_in_reach(buffer) {
            let pairs = pairs_upto(names, false, names.len() as int);
            zip_files_upto(buffer, names, pairs, pairs.len() as int)
        } else {
            None
        },
        None => None,
    }
}

/// Reads the names of all entries of a ZIP archive.
fn zip_names(archive: &mut ZipArchive<Cursor<Vec<u8>>>) -> (names: Vec<Option<String>>)
    requires
        zip_entry_names(zip_source(*old(archive))) is Some,
    ensures
        zip_source(*final(archive)) == zip_source(*old(archive)),
        names_view(names@) == zip_entry_names(zip_source(*old(archive))).unwrap(),
{
    let count: usize = zip_len(archive);
    let mut names: Vec<Option<String>> = Vec::new();
    let mut i: usize = 0;
    while i < count
        invariant
            0 <= i <= count,
            zip_source(*archive) == zip_source(*old(archive)),
            zip_entry_names(zip_source(*archive)) is Some,
            count == zip_entry_names(zip_source(*archive)).unwrap().len(),
            names@.len() == i,
            forall|k: int|
                0 <= k < i ==> name_view(#[trigger] names@[k]) == zip_entry_names(
                    zip_source(*archive),
                ).unwrap()[k],
        decreases count - i,
    {
        let name: Option<String> = zip_name_at(archive, i);
        names.push(name);
        i += 1;
    }
    assert(names_view(names@) =~= zip_entry_names(zip_source(*archive)).unwrap());
    names
}

/// Reads the files of the courses of a ZIP archive: of each entry whose name
/// ends in `course_data_NNN.bcd` and that has a thumbnail, an entry whose
/// name ends in `course_thumb_NNN.btl` with the same number.
///
/// A buffer that holds an offset out of reach is refused as an archive that
/// is not supported, and is not opened.
pub fn zip_course_files(buffer: &[u8]) -> (res: Result<Vec<PackedCourse>, ZipError>)
    ensures
        match res {
            Ok(files) => zip_course_files_of(buffer@) == Some(packed_view(files@)),
            Err(_) => zip_course_files_of(buffer@) is None,
        },
        !offsets_in_reach(buffer@) ==> res matches Err(ZipError::UnsupportedArchive(_)),
{
    if !check_offsets_in_reach(buffer) {
        return Err(ZipError::UnsupportedArchive("header offset out of reach"));
    }
    let owned: Vec<u8> = copy_range(buffer, 0, buffer.len());
    assert(owned@ =~= buffer@);
    let mut archive = match zip_open(owned) {
        Ok(archive) => archive,
        Err(e) => {
            return Err(e);
        },
    };
    let names: Vec<Option<String>> = zip_names(&mut archive);
    let pairs: Vec<(usize, usize)> = get_course_files(&names, false);
    let mut files: Vec<PackedCourse> = Vec::new();
    let mut k: usize = 0;
    while k < pairs.len()
        invariant
            0 <= k <= pairs@.len(),
            offsets_in_reach(buffer@),
            zip_source(archive) == buffer@,
            zip_entry_names(buffer@) == Some(names_view(names@)),
            pairs@ == pairs_upto(names_view(names@), false, names@.len() as int),
            forall|j: int|
                0 <= j < pairs@.len() ==> (#[trigger] pairs@[j]).0 < names@.len() && pairs@[j].1
                    < names@.len() && names@[pairs@[j].0 as int] is Some && names@[pairs@[j].1 as int] is Some,
            zip_files_upto(buffer@, names_view(names@), pairs@, k as int) == Some(
                packed_view(files@),
            ),
        decreases pairs@.len() - k,
    {
        let pair: (usize, usize) = pairs[k];
        let course_name: &str = match &names[pair.0] {
            Some(name) => name.as_str(),
            None => unreached(),
        };
        let thumb_name: &str = match &names[pair.1] {
            Some(name) => name.as_str(),
            None => unreached(),
        };
        let data: Vec<u8> = match zip_read(&mut archive, course_name) {
            Ok(data) => data,
            Err(e) => {
                proof {
                    lemma_zip_files_fail(buffer@, names_view(names@), pairs@, k + 1, pairs@.len() as int);
                }
                return Err(e);
            },
        };
        let thumb: Vec<u8> = match zip_read(&mut archive, thumb_name) {
            Ok(thumb) => thumb,
            Err(e) => {
                proof {
                    lemma_zip_files_fail(buffer@, names_view(names@), pairs@, k + 1, pairs@.len() as int);
                }
                return Err(e);
            },
        };
        let ghost before = packed_view(files@);
        files.push(PackedCourse { data, thumb, compressed: false });
        assert(packed_view(files@) =~= before.push(
            PackedView { data: data@, thumb: thumb@, compressed: false },
        ));
        k += 1;
    }
    Ok(files)
}

/// Once a file of a pair cannot be read, the files of no longer list of
/// pairs can.
pub proof fn lemma_zip_files_fail(
    buffer: Seq<u8>,
    names: Seq<Option<Seq<char>>>,
    pairs: Seq<(usize, usize)>,
    at: int,
    n: int,
)
    requires
        zip_files_upto(buffer, names, pairs, at) is None,
        at <= n,
    ensures
        zip_files_upto(buffer, names, pairs, n) is None,
    decreases n - at,
{
    if at < n {
        lemma_zip_files_fail(buffer, names, pairs, at, n - 1);
    }
}

/// An entry of a TAR archive: its path, where it is valid Unicode, and its
/// content.
#[derive(Clone, Debug, PartialEq, Eq)]
pub struct TarEntry {
    pub name: Option<String>,
    pub data: Vec<u8>,
}

impl View for TarEntry {
    type V = (Option<Seq<char>>, Seq<u8>);

    open spec fn view(&self) -> (Option<Seq<char>>, Seq<u8>) {
        (name_view(self.name), self.data@)
    }
}

/// The name and content of each entry of a list.
pub open spec fn entries_view(entries: Seq<TarEntry>) -> Seq<(Option<Seq<char>>, Seq<u8>)> {
    Seq::new(entries.len(), |i: int| entries[i]@)
}

/// The names of the entries of a list.
pub open spec fn entry_names(entries: Seq<(Option<Seq<char>>, Seq<u8>)>) -> Seq<
    Option<Seq<char>>,
> {
    Seq::new(entries.len(), |i: int| entries[i].0)
}

/// The entries of the TAR archive in a buffer, in their order: of each its
/// path, where that is valid Unicode, and its content. `None` where the
/// buffer cannot be read as an archive to its end.
pub uninterp spec fn tar_entries(buffer: Seq<u8>) -> Option<Seq<(Option<Seq<char>>, Seq<u8>)>>;

/// What a Brotli stream decompresses to, or `None` where the bytes are no
/// such stream.
pub uninterp spec fn brotli_decoded(data: Seq<u8>) -> Option<Seq<u8>>;

/// The kind of file that the first bytes of a buffer show, as a MIME type,
/// or `None` where they show none that is known.
pub uninterp spec fn sniffed_mime(buffer: Seq<u8>) -> Option<Seq<char>>;

/// Trusted: walks `Archive::entries` of `tar` and takes of each entry its
/// path, where `Entry::path` gives one that is valid Unicode, and its
/// content. The contract names the entries that come back, and says that an
/// error comes back where the archive cannot be read to its end.
#[verifier::external_body]
fn tar_read_entries(buffer: &[u8]) -> (res: Result<Vec<TarEntry>, std::io::Error>)
    ensures
        match res {
            Ok(entries) => tar_entries(buffer@) == Some(entries_view(entries@)),
            Err(_) => tar_entries(buffer@) is None,
        },
{
    let mut archive = tar::Archive::new(Cursor::new(buffer));
    let mut entries = Vec::new();
    for file in archive.entries()? {
        let mut file = file?;
        let name = file.path().ok().and_then(|path| path.to_str().map(|text| text.to_string()));
        let mut data = Vec::new();
        file.read_to_end(&mut data)?;
        entries.push(TarEntry { name, data });
    }
    Ok(entries)
}

/// Trusted: reads a `BrotliDecoder` of `brotli2` to its end. The contract
/// names the bytes that come back, and says that `None` comes back where
/// the decoder fails.
#[verifier::external_body]
fn brotli_decompress(data: &[u8]) -> (res: Option<Vec<u8>>)
    ensures
        data_view(res) == brotli_decoded(data@),
{
    let mut plain = Vec::new();
    BrotliDecoder::new(Cursor::new(data)).read_to_end(&mut plain).ok()?;
    Some(plain)
}

/// Trusted: calls `Infer::get` of `infer` and takes the MIME type of the
/// kind that it finds. The contract names the text that comes back.
#[verifier::external_body]
fn sniff_mime(buffer: &[u8]) -> (mime: Option<String>)
    ensures
        name_view(mime) == sniffed_mime(buffer@),
{
    infer::Infer::new().get(buffer).map(|kind| kind.mime_type().to_string())
}

/// The files of the first `n` pairs of a TAR archive. A compressed course
/// that cannot be decompressed is left out.
pub open spec fn tar_files_upto(
    entries: Seq<(Option<Seq<char>>, Seq<u8>)>,
    pairs: Seq<(usize, usize)>,
    n: int,
) -> Seq<PackedView>
    decreases n,
{
    if n <= 0 {
        Seq::empty()
    } else {
        let before = tar_files_upto(entries, pairs, n - 1);
        let course = entries[pairs[n - 1].0 as int];
        let thumb = entries[pairs[n - 1].1 as int].1;
        if course_file_number(name_bytes(course.0).unwrap()) is Some {
            before.push(PackedView { data: course.1, thumb, compressed: false })
        } else {
            match brotli_decoded(course.1) {
                Some(plain) => before.push(PackedView { data: plain, thumb, compressed: true }),
                None => before,
            }
        }
    }
}

/// The files of the courses of the TAR archive in a buffer: of each entry
/// that is a course file, encrypted or compressed, and has a thumbnail of
/// its number, in the order of the archive. `None` where the buffer cannot
/// be read as an archive.
pub open spec fn tar_course_files_of(buffer: Seq<u8>) -> Option<Seq<PackedView>> {
    match tar_entries(buffer) {
        Some(entries) => {
            let pairs = pairs_upto(entry_names(entries), true, entries.len() as int);
            Some(tar_files_upto(entries, pairs, pairs.len() as int))
        },
        None => None,
    }
}

/// Reads the files of the courses of a TAR archive: of each entry whose name
/// ends in `course_data_NNN.bcd` or in `course_data_NNN.br` and that has a
/// thumbnail, an entry whose name ends in `course_thumb_NNN.btl` with the
/// same number. A compressed course is decompressed.
pub fn tar_course_files(buffer: &[u8]) -> (res: Result<Vec<PackedCourse>, std::io::Error>)
    ensures
        match res {
            Ok(files) => tar_course_files_of(buffer@) == Some(packed_view(files@)),
            Err(_) => tar_course_files_of(buffer@) is None,
        },
{
    let entries: Vec<TarEntry> = match tar_read_entries(buffer) {
        Ok(entries) => entries,
        Err(e) => {
            return Err(e);
        },
    };
    let mut names: Vec<Option<String>> = Vec::new();
    let mut i: usize = 0;
    while i < entries.len()
        invariant
            0 <= i <= entries@.len(),
            names@.len() == i,
            forall|k: int| 0 <= k < i ==> #[trigger] names@[k] == entries@[k].name,
        decreases entries@.len() - i,
    {
        names.push(entries[i].name.clone());
        i += 1;
    }
    assert(names_view(names@) =~= entry_names(entries_view(entries@)));
    let pairs: Vec<(usize, usize)> = get_course_files(&names, true);
    let mut files: Vec<PackedCourse> = Vec::new();
    let mut k: usize = 0;
    while k < pairs.len()
        invariant
            0 <= k <= pairs@.len(),
            names@.len() == entries@.len(),
            forall|j: int| 0 <= j < names@.len() ==> #[trigger] names@[j] == entries@[j].name,
            forall|j: int|
                0 <= j < pairs@.len() ==> (#[trigger] pairs@[j]).0 < names@.len() && pairs@[j].1
                    < names@.len() && names@[pairs@[j].0 as int] is Some && names@[pairs@[j].1 as int] is Some,
            packed_view(files@) == tar_files_upto(entries_view(entries@), pairs@, k as int),
        decreases pairs@.len() - k,
    {
        let pair: (usize, usize) = pairs[k];
        let course: &TarEntry = &entries[pair.0];
        let thumb: Vec<u8> = entries[pair.1].data.clone();
        let ghost before = packed_view(files@);
        let encrypted: bool = match &course.name {
            Some(name) => match_file_number(
                name.as_str().as_bytes(),
                COURSE_DATA_PREFIX.as_slice(),
                BCD_EXTENSION.as_slice(),
            ).is_some(),
            None => unreached(),
        };
        if encrypted {
            let data: Vec<u8> = course.data.clone();
            files.push(PackedCourse { data, thumb, compressed: false });
            assert(packed_view(files@) =~= before.push(
                PackedView { data: data@, thumb: thumb@, compressed: false },
            ));
        } else {
            match brotli_decompress(course.data.as_slice()) {
                Some(plain) => {
                    files.push(PackedCourse { data: plain, thumb, compressed: true });
                    assert(packed_view(files@) =~= before.push(
                        PackedView { data: plain@, thumb: thumb@, compressed: true },
                    ));
                },
                None => {},
            }
        }
        k += 1;
    }
    Ok(files)
}

/// Whether two texts are equal.
pub fn text_equal(a: &str, b: &str) -> (same: bool)
    ensures
        same == (a@ == b@),
{
    let same: bool = bytes_equal(a.as_bytes(), b.as_bytes());
    proof {
        encode_utf8_decode_utf8(a@);
        encode_utf8_decode_utf8(b@);
    }
    same
}

/// What a packed buffer holds.
pub enum Unpacked {
    /// The buffer is of a kind that cannot be unpacked: the MIME type that it
    /// shows, or the empty text where it shows none that is known.
    Unsupported(Seq<char>),
    /// The buffer shows the kind of a ZIP archive and cannot be read as one.
    DamagedZip,
    /// The buffer shows the kind of a TAR archive and cannot be read as one.
    DamagedTar,
    /// The files of the courses of the archive.
    Files(Seq<PackedView>),
}

/// What a packed buffer holds: the course files of a ZIP archive or of a TAR
/// archive, by the kind that its first bytes show.
pub open spec fn unpacked(buffer: Seq<u8>) -> Unpacked {
    match sniffed_mime(buffer) {
        Some(mime) => if mime == "application/zip"@ {
            match zip_course_files_of(buffer) {
                Some(files) => Unpacked::Files(files),
                None => Unpacked::DamagedZip,
            }
        } else if mime == "application/x-tar"@ {
            match tar_course_files_of(buffer) {
                Some(files) => Unpacked::Files(files),
                None => Unpacked::DamagedTar,
            }
        } else {
            Unpacked::Unsupported(mime)
        },
        None => Unpacked::Unsupported(Seq::empty()),
    }
}

/// Takes the course files out of a packed buffer: a ZIP archive or a TAR
/// archive.
pub fn unpack(buffer: &[u8]) -> (res: Result<Vec<PackedCourse>, SmmdbError>)
    ensures
        match unpacked(buffer@) {
            Unpacked::Unsupported(mime) => res matches Err(SmmdbError::MimeTypeUnsupported(text))
                && text@ == mime,
            Unpacked::DamagedZip => res matches Err(SmmdbError::Zip(_)),
            Unpacked::DamagedTar => res matches Err(SmmdbError::IoError(_)),
            Unpacked::Files(files) => res matches Ok(found) && packed_view(found@) == files,
        },
{
    match sniff_mime(buffer) {
        Some(mime) => {
            if text_equal(mime.as_str(), "application/zip") {
                match zip_course_files(buffer) {
                    Ok(files) => Ok(files),
                    Err(e) => Err(SmmdbError::Zip(e)),
                }
            } else if text_equal(mime.as_str(), "application/x-tar") {
                match tar_course_files(buffer) {
                    Ok(files) => Ok(files),
                    Err(e) => Err(SmmdbError::IoError(e)),
                }
            } else {
                Err(SmmdbError::MimeTypeUnsupported(mime))
            }
        },
        None => Err(SmmdbError::MimeTypeUnsupported(String::new())),
    }
}

/// `course`: what stands in front of the number of a course folder.
pub const COURSE_FOLDER_PREFIX: [u8; 6] = [0x63, 0x6F, 0x75, 0x72, 0x73, 0x65];

/// `/`: what ends the name of a folder.
pub const FOLDER_END: [u8; 1] = [0x2F];

/// The four files of a Super Mario Maker course.
#[derive(Clone, Debug, PartialEq, Eq)]
pub struct CourseAssets {
    pub course_data: Vec<u8>,
    pub course_data_sub: Vec<u8>,
    pub thumbnail_0: Vec<u8>,
    pub thumbnail_1: Vec<u8>,
}

/// The four files of a course, their bytes as sequences.
pub struct CourseAssetsView {
    pub course_data: Seq<u8>,
    pub course_data_sub: Seq<u8>,
    pub thumbnail_0: Seq<u8>,
    pub thumbnail_1: Seq<u8>,
}

impl View for CourseAssets {
    type V = CourseAssetsView;

    open spec fn view(&self) -> CourseAssetsView {
        CourseAssetsView {
            course_data: self.course_data@,
            course_data_sub: self.course_data_sub@,
            thumbnail_0: self.thumbnail_0@,
            thumbnail_1: self.thumbnail_1@,
        }
    }
}

/// The files of each course of a list.
pub open spec fn assets_view(assets: Seq<CourseAssets>) -> Seq<CourseAssetsView> {
    Seq::new(assets.len(), |i: int| assets[i]@)
}

/// Whether an entry is a course folder: its name ends in `courseNNN/`.
pub open spec fn is_course_folder(name: Option<Seq<char>>) -> bool {
    name is Some && file_number(encode_utf8(name.unwrap()), COURSE_FOLDER_PREFIX@, FOLDER_END@) is Some
}

/// The four files of the course folder with the given name, or `None` where
/// one of them cannot be read.
pub open spec fn folder_assets(buffer: Seq<u8>, folder: Seq<char>) -> Option<CourseAssetsView> {
    match (
        zip_entry_data(buffer, folder + "course_data.cdt"@),
        zip_entry_data(buffer, folder + "course_data_sub.cdt"@),
        zip_entry_data(buffer, folder + "thumbnail0.tnl"@),
        zip_entry_data(buffer, folder + "thumbnail1.tnl"@),
    ) {
        (Some(course_data), Some(course_data_sub), Some(thumbnail_0), Some(thumbnail_1)) => Some(
            CourseAssetsView { course_data, course_data_sub, thumbnail_0, thumbnail_1 },
        ),
        _ => None,
    }
}

/// The files of the course folders among the first `n` entries of a ZIP
/// archive, or `None` where a file of one of these folders cannot be read.
pub open spec fn zip_assets_upto(buffer: Seq<u8>, names: Seq<Option<Seq<char>>>, n: int) -> Option<
    Seq<CourseAssetsView>,
>
    decreases n,
{
    if n <= 0 {
        Some(Seq::empty())
    } else {
        match zip_assets_upto(buffer, names, n - 1) {
            Some(before) => if is_course_folder(names[n - 1]) {
                match folder_assets(buffer, names[n - 1].unwrap()) {
                    Some(assets) => Some(before.push(assets)),
                    None => None,
                }
            } else {
                Some(before)
            },
            None => None,
        }
    }
}

/// The files of the course folders of the ZIP archive in a buffer, in the
/// order of the archive.
pub open spec fn zip_course_assets_of(buffer: Seq<u8>) -> Option<Seq<CourseAssetsView>> {
    match zip_entry_names(buffer) {
        Some(names) => if offsets_in_reach(buffer) {
            zip_assets_upto(buffer, names, names.len() as int)
        } else {
            None
        },
        None => None,
    }
}

/// Once a file of a folder cannot be read, the files of no longer list of
/// entries can.
pub proof fn lemma_zip_assets_fail(
    buffer: Seq<u8>,
    names: Seq<Option<Seq<char>>>,
    at: int,
    n: int,
)
    requires
        zip_assets_upto(buffer, names, at) is None,
        at <= n,
    ensures
        zip_assets_upto(buffer, names, n) is None,
    decreases n - at,
{
    if at < n {
        lemma_zip_assets_fail(buffer, names, at, n - 1);
    }
}

/// Reads one file of a course folder.
fn zip_read_in_folder(
    archive: &mut ZipArchive<Cursor<Vec<u8>>>,
    folder: &str,
    file: &str,
) -> (res: Result<Vec<u8>, ZipError>)
    ensures
        match res {
            Ok(data) => zip_entry_data(zip_source(*old(archive)), folder@ + file@) == Some(data@),
            Err(_) => zip_entry_data(zip_source(*old(archive)), folder@ + file@) is None,
        },
        zip_source(*final(archive)) == zip_source(*old(archive)),
{
    let name: String = String::from_str(folder).concat(file);
    zip_read(archive, name.as_str())
}

/// Reads the four files of a course folder.
pub fn get_course_assets(archive: &mut ZipArchive<Cursor<Vec<u8>>>, course: &str) -> (res: Result<
    CourseAssets,
    ZipError,
>)
    ensures
        match res {
            Ok(assets) => folder_assets(zip_source(*old(archive)), course@) == Some(assets@),
            Err(_) => folder_assets(zip_source(*old(archive)), course@) is None,
        },
        zip_source(*final(archive)) == zip_source(*old(archive)),
{
    let course_data: Vec<u8> = match zip_read_in_folder(archive, course, "course_data.cdt") {
        Ok(data) => data,
        Err(e) => {
            return Err(e);
        },
    };
    let course_data_sub: Vec<u8> = match zip_read_in_folder(archive, course, "course_data_sub.cdt") {
        Ok(data) => data,
        Err(e) => {
            return Err(e);
        },
    };
    let thumbnail_0: Vec<u8> = match zip_read_in_folder(archive, course, "thumbnail0.tnl") {
        Ok(data) => data,
        Err(e) => {
            return Err(e);
        },
    };
    let thumbnail_1: Vec<u8> = match zip_read_in_folder(archive, course, "thumbnail1.tnl") {
        Ok(data) => data,
        Err(e) => {
            return Err(e);
        },
    };
    Ok(CourseAssets { course_data, course_data_sub, thumbnail_0, thumbnail_1 })
}

/// Reads the files of the course folders of a ZIP archive: of each entry
/// whose name ends in `courseNNN/`.
pub fn zip_course_assets(buffer: &[u8]) -> (res: Result<Vec<CourseAssets>, ZipError>)
    ensures
        match res {
            Ok(assets) => zip_course_assets_of(buffer@) == Some(assets_view(assets@)),
            Err(_) => zip_course_assets_of(buffer@) is None,
        },
        !offsets_in_reach(buffer@) ==> res matches Err(ZipError::UnsupportedArchive(_)),
{
    if !check_offsets_in_reach(buffer) {
        return Err(ZipError::UnsupportedArchive("header offset out of reach"));
    }
    let owned: Vec<u8> = copy_range(buffer, 0, buffer.len());
    assert(owned@ =~= buffer@);
    let mut archive = match zip_open(owned) {
        Ok(archive) => archive,
        Err(e) => {
            return Err(e);
        },
    };
    let names: Vec<Option<String>> = zip_names(&mut archive);
    let mut found: Vec<CourseAssets> = Vec::new();
    let mut i: usize = 0;
    while i < names.len()
        invariant
            0 <= i <= names@.len(),
            offsets_in_reach(buffer@),
            zip_source(archive) == buffer@,
            zip_entry_names(buffer@) == Some(names_view(names@)),
            zip_assets_upto(buffer@, names_view(names@), i as int) == Some(assets_view(found@)),
        decreases names@.len() - i,
    {
        if let Some(name) = &names[i] {
            if match_file_number(
                name.as_str().as_bytes(),
                COURSE_FOLDER_PREFIX.as_slice(),
                FOLDER_END.as_slice(),
            ).is_some() {
                match get_course_assets(&mut archive, name.as_str()) {
                    Ok(assets) => {
                        let ghost before = assets_view(found@);
                        let ghost added = assets@;
                        found.push(assets);
                        assert(assets_view(found@) =~= before.push(added));
                    },
                    Err(e) => {
                        proof {
                            lemma_zip_assets_fail(
                                buffer@,
                                names_view(names@),
                                i + 1,
                                names@.len() as int,
                            );
                        }
                        return Err(e);
                    },
                }
            }
        }
        i += 1;
    }
    Ok(found)
}

/// Whether a buffer shows the kind of a ZIP archive; else the kind that it
/// shows, or the empty text where it shows none that is known.
pub fn expect_zip(buffer: &[u8]) -> (res: Result<(), SmmdbError>)
    ensures
        match sniffed_mime(buffer@) {
            Some(mime) => if mime == "application/zip"@ {
                res is Ok
            } else {
                res matches Err(SmmdbError::MimeTypeUnsupported(text)) && text@ == mime
            },
            None => res matches Err(SmmdbError::MimeTypeUnsupported(text)) && text@
                == Seq::<char>::empty(),
        },
{
    match sniff_mime(buffer) {
        Some(mime) => {
            if text_equal(mime.as_str(), "application/zip") {
                Ok(())
            } else {
                Err(SmmdbError::MimeTypeUnsupported(mime))
            }
        },
        None => Err(SmmdbError::MimeTypeUnsupported(String::new())),
    }
}

} // verus!
