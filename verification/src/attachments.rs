//! The files and clipboard images that a text names, and what is sent of them.

use vstd::prelude::*;
use vstd::string::StrSliceExecFns;
use vstd::string::StringExecFns;

use chrono::{FixedOffset, TimeZone};
use image::codecs::png::PngEncoder;
use image::{ExtendedColorType, ImageEncoder};
use std::path::Path;

use crate::text::{join, locate, skip_chars, starts_with, trim, trim_end};

#[allow(unused_imports)]
use crate::mentions::texts;
#[allow(unused_imports)]
use crate::text::{
    between_bytes, char_boundary, from_byte, is_prefix, lemma_byte_len_take_grows, starts_at,
    trimmed, trimmed_end,
};

verus! {

/// What an attachment is, beside its bytes.
#[derive(Debug)]
pub struct AttachmentSpec {
    pub content_type: String,
    pub length: usize,
    pub file_name: Option<String>,
    pub width: Option<u32>,
    pub height: Option<u32>,
}

/// The parts of a text that may name attachments, in bytes: from the first of each pair up to the
/// second. They are in order, do not overlap, and start and end where characters do.
pub open spec fn matches_fit(input: Seq<char>, matches: Seq<(usize, usize)>) -> bool {
    &&& forall|i: int|
        0 <= i < matches.len() ==> {
            &&& (#[trigger] matches[i]).0 <= matches[i].1
            &&& char_boundary(input, matches[i].0 as int)
            &&& char_boundary(input, matches[i].1 as int)
        }
    &&& forall|i: int, j: int|
        0 <= i < j < matches.len() ==> (#[trigger] matches[i]).1 <= (#[trigger] matches[j]).0
}

/// Whether `matches` are parts of `input` as they are looked for in it.
pub fn are_matches(input: &str, matches: &Vec<(usize, usize)>) -> (r: bool)
    ensures
        r == matches_fit(input@, matches@),
{
    let mut i: usize = 0;
    let mut end: usize = 0;
    while i < matches.len()
        invariant
            i <= matches.len(),
            matches_fit(input@, matches@.take(i as int)),
            i == 0 ==> end == 0,
            i > 0 ==> end == matches@[i - 1].1,
        decreases matches.len() - i,
    {
        let (start, stop) = matches[i];
        let ghost now = matches@.take(i + 1);
        if start > stop || locate(input, start).is_none() || locate(input, stop).is_none() {
            assert(now[i as int] == matches@[i as int]);
            assert(matches@[i as int].0 == start);
            return false;
        }
        if start < end {
            assert(matches@[i - 1].1 > matches@[i as int].0);
            return false;
        }
        proof {
            assert forall|k: int| 0 <= k < now.len() implies {
                &&& (#[trigger] now[k]).0 <= now[k].1
                &&& char_boundary(input@, now[k].0 as int)
                &&& char_boundary(input@, now[k].1 as int)
            } by {
                if k < i {
                    assert(now[k] == matches@.take(i as int)[k]);
                }
            }
            assert forall|k: int, l: int| 0 <= k < l < now.len() implies (#[trigger] now[k]).1 <= (
            #[trigger] now[l]).0 by {
                if l < i {
                    assert(now[k] == matches@.take(i as int)[k]);
                    assert(now[l] == matches@.take(i as int)[l]);
                } else if k < i - 1 {
                    assert(now[k] == matches@.take(i as int)[k]);
                    assert(now[i - 1] == matches@.take(i as int)[i - 1]);
                }
            }
        }
        end = stop;
        i = i + 1;
    }
    assert(matches@.take(matches@.len() as int) =~= matches@);
    true
}

/// The path that a part of a text names, if it is a file link.
pub open spec fn linked_path(input: Seq<char>, part: (usize, usize)) -> Option<Seq<char>> {
    let link = between_bytes(input, part.0 as int, part.1 as int);
    if is_prefix("file://"@, link) {
        Some(link.skip("file://"@.len() as int))
    } else {
        None
    }
}

/// A text whose file links are cut out: what is before the last of them, where that one ends, and
/// the paths that they name.
pub struct Cut {
    pub text: Seq<char>,
    pub offset: int,
    pub paths: Seq<Seq<char>>,
}

/// The file links among `matches` cut out of `input`, with the white space before each of them.
pub open spec fn cut_links(input: Seq<char>, matches: Seq<(usize, usize)>) -> Cut
    decreases matches.len(),
{
    if matches.len() == 0 {
        Cut { text: Seq::empty(), offset: 0, paths: Seq::empty() }
    } else {
        let before = cut_links(input, matches.drop_last());
        match linked_path(input, matches.last()) {
            None => before,
            Some(path) => Cut {
                text: before.text + trimmed_end(
                    between_bytes(input, before.offset, matches.last().0 as int),
                ),
                offset: matches.last().1 as int,
                paths: before.paths.push(path),
            },
        }
    }
}

/// What is left of `input` without its file links and the white space at its ends.
pub open spec fn clean_text(input: Seq<char>, matches: Seq<(usize, usize)>) -> Seq<char> {
    let cut = cut_links(input, matches);
    trimmed(cut.text + from_byte(input, cut.offset))
}

/// The paths that the file links among `matches` name.
pub open spec fn linked_paths(input: Seq<char>, matches: Seq<(usize, usize)>) -> Seq<Seq<char>> {
    cut_links(input, matches).paths
}

/// The last link ends before what follows it.
proof fn lemma_cut_offset(input: Seq<char>, matches: Seq<(usize, usize)>, k: int)
    requires
        matches_fit(input, matches),
        0 <= k <= matches.len(),
    ensures
        char_boundary(input, cut_links(input, matches.take(k)).offset),
        0 <= cut_links(input, matches.take(k)).offset,
        k < matches.len() ==> cut_links(input, matches.take(k)).offset <= matches[k].0,
    decreases k,
{
    if k == 0 {
        assert(input.take(0) =~= Seq::<char>::empty());
        assert(starts_at(input, 0, 0));
    } else {
        lemma_cut_offset(input, matches, k - 1);
        assert(matches.take(k).drop_last() =~= matches.take(k - 1));
        assert(matches.take(k).last() == matches[k - 1]);
    }
}

/// The characters of `s` from byte `from` up to byte `to`.
fn slice_bytes(s: &str, from: usize, to: usize) -> (r: &str)
    requires
        from <= to,
        char_boundary(s@, from as int),
        char_boundary(s@, to as int),
    ensures
        r@ == between_bytes(s@, from as int, to as int),
{
    if let Some(i) = locate(s, from) {
        if let Some(j) = locate(s, to) {
            proof {
                if j < i {
                    lemma_byte_len_take_grows(s@, j as int, i as int);
                }
            }
            return s.substring_char(i, j);
        }
    }
    s
}

/// Cuts the file links out of `input`. `matches` are the parts of it that may be such links.
/// Returns what is left, and the paths that the links name.
pub fn extract_attachments(input: &str, matches: &Vec<(usize, usize)>) -> (r: (
    String,
    Vec<String>,
))
    requires
        matches_fit(input@, matches@),
    ensures
        r.0@ == clean_text(input@, matches@),
        texts(r.1@) == linked_paths(input@, matches@),
{
    let mut offset: usize = 0;
    let mut text = String::new();
    let mut paths: Vec<String> = Vec::new();
    let mut i: usize = 0;
    while i < matches.len()
        invariant
            i <= matches.len(),
            matches_fit(input@, matches@),
            text@ == cut_links(input@, matches@.take(i as int)).text,
            offset == cut_links(input@, matches@.take(i as int)).offset,
            texts(paths@) == cut_links(input@, matches@.take(i as int)).paths,
        decreases matches.len() - i,
    {
        proof {
            lemma_cut_offset(input@, matches@, i as int);
            assert(matches@.take(i + 1).drop_last() =~= matches@.take(i as int));
        }
        let (start, end) = matches[i];
        let link = slice_bytes(input, start, end);
        if starts_with(link, "file://") {
            let path = skip_chars(link, "file://".unicode_len());
            let before = trim_end(slice_bytes(input, offset, start));
            text.append(before);
            offset = end;
            let ghost known = paths@;
            paths.push(path.to_owned());
            assert(texts(paths@) =~= texts(known).push(path@));
        }
        i = i + 1;
    }
    proof {
        lemma_cut_offset(input@, matches@, matches@.len() as int);
        assert(matches@.take(matches@.len() as int) =~= matches@);
    }
    if let Some(k) = locate(input, offset) {
        text.append(skip_chars(input, k));
    }
    (trim(text.as_str()).to_owned(), paths)
}

/// Whether a path stands for the image in the clipboard.
pub open spec fn is_clipboard_path(path: Seq<char>) -> bool {
    is_prefix("clip"@, path)
}

/// Whether `path` stands for the image in the clipboard.
pub fn names_clipboard(path: &str) -> (r: bool)
    ensures
        r == is_clipboard_path(path@),
{
    starts_with(path, "clip")
}

/// An image as the clipboard hands it out: four bytes for each point, row by row.
#[derive(Debug)]
pub struct ClipboardImage {
    pub width: usize,
    pub height: usize,
    pub bytes: Vec<u8>,
}

impl ClipboardImage {
    /// The bytes for all points of the image are there, and its size can be written down.
    pub open spec fn complete(&self) -> bool {
        &&& self.width <= u32::MAX
        &&& self.height <= u32::MAX
        &&& 4 * (self.width * self.height) <= self.bytes@.len()
    }

    /// If the image is complete, it has no bytes beside those of its points, and the encoder can count
    /// the bytes of a row with 32 bits.
    pub open spec fn encodable(&self) -> bool {
        self.complete() ==> {
            &&& self.bytes@.len() == 4 * (self.width * self.height)
            &&& self.width < 0x4000_0000
        }
    }

    /// Whether the bytes for all points are there.
    fn is_complete(&self) -> (r: bool)
        ensures
            r == self.complete(),
    {
        if self.width > u32::MAX as usize || self.height > u32::MAX as usize {
            return false;
        }
        let (w, h) = (self.width as u128, self.height as u128);
        proof {
            assert(w * h <= 0xffff_ffff * 0xffff_ffff) by (nonlinear_arith)
                requires
                    w <= 0xffff_ffff,
                    h <= 0xffff_ffff,
            ;
        }
        4 * (w * h) <= self.bytes.len() as u128
    }

    /// Whether the image can be encoded or is refused, rather than break the encoder.
    pub fn is_encodable(&self) -> (r: bool)
        ensures
            r == self.encodable(),
    {
        if !self.is_complete() {
            return true;
        }
        let (w, h) = (self.width as u128, self.height as u128);
        proof {
            assert(w * h <= 0xffff_ffff * 0xffff_ffff) by (nonlinear_arith)
                requires
                    w <= 0xffff_ffff,
                    h <= 0xffff_ffff,
            ;
        }
        self.bytes.len() as u128 == 4 * (w * h) && self.width < 0x4000_0000
    }
}

/// The PNG file that `PngEncoder::write_image` makes of `width` times `height` points of four bytes.
pub uninterp spec fn png_file(points: Seq<u8>, width: u32, height: u32) -> Seq<u8>;

/// `PngEncoder::write_image` with the encoder's default settings, on points of red, green, blue and
/// alpha with one byte each. It panics where the number of bytes is another than that of the
/// points. It may panic on rows of four gigabytes: `fdeflate::Compressor::write_data` gets a row at a
/// time and counts the zeros in it with 32 bits. What it writes depends on its arguments alone, and
/// it fails just where there are no points.
#[verifier::external_body]
fn encode_png(points: &Vec<u8>, width: u32, height: u32) -> (r: Option<Vec<u8>>)
    requires
        points@.len() == 4 * (width * height),
        width < 0x4000_0000,
    ensures
        r is None <==> (width == 0 || height == 0),
        r matches Some(bytes) ==> bytes@ == png_file(points@, width, height),
{
    let mut bytes: Vec<u8> = Vec::new();
    let encoder = PngEncoder::new(&mut bytes);
    encoder.write_image(points, width, height, ExtendedColorType::Rgba8).ok()?;
    Some(bytes)
}

/// The first and the last second that a calendar date is known for, from the start of 1970.
pub const FIRST_SECOND: i64 = -8334601228800;

pub const LAST_SECOND: i64 = 8210266876799;

/// A moment: seconds from the start of 1970, nanoseconds, and how many seconds the clocks are ahead
/// at the place that it is told for. A leap second is told by a second of nanoseconds more.
#[derive(Debug)]
pub struct Moment {
    secs: i64,
    nanos: u32,
    offset: i32,
}

/// These make up a moment.
pub open spec fn is_moment(secs: i64, nanos: u32, offset: i32) -> bool {
    &&& FIRST_SECOND <= secs <= LAST_SECOND
    &&& nanos < 1_000_000_000 || nanos < 2_000_000_000 && secs % 60 == 59
    &&& -86400 < offset < 86400
}

impl Moment {
    #[verifier::type_invariant]
    spec fn inv(self) -> bool {
        is_moment(self.secs, self.nanos, self.offset)
    }

    pub closed spec fn secs(&self) -> i64 {
        self.secs
    }

    pub closed spec fn nanos(&self) -> u32 {
        self.nanos
    }

    pub closed spec fn offset(&self) -> i32 {
        self.offset
    }

    /// The moment `secs` seconds and `nanos` nanoseconds behind the start of 1970, where the clocks
    /// are `offset` seconds ahead.
    pub fn new(secs: i64, nanos: u32, offset: i32) -> (r: Option<Moment>)
        ensures
            r is Some <==> is_moment(secs, nanos, offset),
            r matches Some(moment) ==> moment.secs() == secs && moment.nanos() == nanos
                && moment.offset() == offset,
    {
        if secs < FIRST_SECOND || secs > LAST_SECOND || offset <= -86400 || offset >= 86400 {
            return None;
        }
        let since_first: u64 = (secs - FIRST_SECOND) as u64;
        assert(since_first % 60 == secs % 60);
        if nanos < 1_000_000_000 || nanos < 2_000_000_000 && since_first % 60 == 59 {
            Some(Moment { secs, nanos, offset })
        } else {
            None
        }
    }
}

/// What `DateTime::format` makes of a moment, in the form `format`.
pub uninterp spec fn formatted(
    secs: i64,
    nanos: u32,
    offset: i32,
    format: Seq<char>,
) -> Seq<char>;

/// The form in which the moment of a screenshot is told.
pub open spec fn stamp_format() -> Seq<char> {
    "%Y-%m-%dT%H:%M:%S%z"@
}

/// `DateTime::format` on the moment that `TimeZone::timestamp_opt` finds for a `FixedOffset`. The
/// text depends on the arguments alone.
#[verifier::external_body]
fn format_moment(secs: i64, nanos: u32, offset: i32, format: &str) -> (r: String)
    requires
        is_moment(secs, nanos, offset),
        format@ == stamp_format(),
    ensures
        r@ == formatted(secs, nanos, offset, format@),
{
    let zone = FixedOffset::east_opt(offset).unwrap();
    zone.timestamp_opt(secs, nanos).unwrap().format(format).to_string()
}

/// The name of the file of a screenshot that was taken when the clock showed `stamp`.
pub open spec fn screenshot_name(stamp: Seq<char>) -> Seq<char> {
    "screenshot-"@ + stamp + ".png"@
}

/// The attachment for an image that is encoded as `png`.
pub fn screenshot_attachment(width: u32, height: u32, png: Vec<u8>, stamp: &str) -> (r: (
    AttachmentSpec,
    Vec<u8>,
))
    ensures
        r.1@ == png@,
        r.0.content_type@ == "image/png"@,
        r.0.length == png@.len(),
        r.0.file_name matches Some(name) && name@ == screenshot_name(stamp@),
        r.0.width == Some(width),
        r.0.height == Some(height),
{
    let spec = AttachmentSpec {
        content_type: "image/png".to_owned(),
        length: png.len(),
        file_name: Some(join("screenshot-", stamp, ".png")),
        width: Some(width),
        height: Some(height),
    };
    (spec, png)
}

/// `item` is the attachment for the image of the clipboard, taken at the moment `at`.
pub open spec fn image_attached(
    image: ClipboardImage,
    at: Moment,
    item: (AttachmentSpec, Vec<u8>),
) -> bool {
    let (spec, bytes) = item;
    &&& bytes@ == png_file(image.bytes@, image.width as u32, image.height as u32)
    &&& spec.content_type@ == "image/png"@
    &&& spec.length == bytes@.len()
    &&& text_of(spec.file_name) == Some(
        screenshot_name(formatted(at.secs(), at.nanos(), at.offset(), stamp_format())),
    )
    &&& spec.width == Some(image.width as u32)
    &&& spec.height == Some(image.height as u32)
}

/// The attachment for the image of the clipboard, taken at the moment `at`. There is none where the
/// image has no points, or fewer than its size says.
pub fn clipboard_attachment(image: ClipboardImage, at: &Moment) -> (r: Option<
    (AttachmentSpec, Vec<u8>),
>)
    requires
        image.encodable(),
    ensures
        r is Some <==> image.complete() && image.width > 0 && image.height > 0,
        r matches Some(item) ==> image_attached(image, *at, item),
{
    if !image.is_complete() {
        return None;
    }
    let width: u32 = image.width as u32;
    let height: u32 = image.height as u32;
    match encode_png(&image.bytes, width, height) {
        Some(png) => {
            proof {
                use_type_invariant(at);
            }
            let stamp = format_moment(at.secs, at.nanos, at.offset, "%Y-%m-%dT%H:%M:%S%z");
            Some(screenshot_attachment(width, height, png, stamp.as_str()))
        },
        None => None,
    }
}

/// The type that `MimeGuess::first` gives for files with the extension `extension`, as
/// `Mime::essence_str` writes it.
pub uninterp spec fn guessed_type(extension: Seq<char>) -> Option<Seq<char>>;

/// `mime_guess::from_ext`, `MimeGuess::first` and `Mime::essence_str`. They look the extension up in
/// a fixed table.
#[verifier::external_body]
fn guess_type(extension: &str) -> (r: Option<String>)
    ensures
        r is Some <==> guessed_type(extension@) is Some,
        r matches Some(content_type) ==> Some(content_type@) == guessed_type(extension@),
{
    mime_guess::from_ext(extension).first().map(|mime| mime.essence_str().to_string())
}

/// `part` stands somewhere in `whole`.
pub open spec fn part_at(part: Seq<char>, whole: Seq<char>, i: int) -> bool {
    0 <= i && i + part.len() <= whole.len() && whole.subrange(i, i + part.len()) == part
}

/// What stands behind the last `c` of `s`: all of it, if there is none.
pub open spec fn behind_last(s: Seq<char>, c: char) -> Seq<char>
    decreases s.len(),
{
    if s.len() == 0 || s.last() == c {
        Seq::empty()
    } else {
        behind_last(s.drop_last(), c).push(s.last())
    }
}

/// `path` without the slashes at its end, and without the parts at its end that are single dots
/// behind a slash.
pub open spec fn without_end(path: Seq<char>) -> Seq<char>
    decreases path.len(),
{
    if path.len() > 0 && path.last() == '/' {
        without_end(path.drop_last())
    } else if path.len() > 1 && path.last() == '.' && path[path.len() - 2] == '/' {
        without_end(path.drop_last())
    } else {
        path
    }
}

/// The name of the file at `path`: the last of its parts, which are parted by slashes, if that is
/// neither one dot nor two.
pub open spec fn last_name(path: Seq<char>) -> Option<Seq<char>> {
    let last = behind_last(without_end(path), '/');
    if last.len() == 0 || last == seq!['.'] || last == seq!['.', '.'] {
        None
    } else {
        Some(last)
    }
}

/// What stands behind the last dot of a file's name, if something stands before that dot.
pub open spec fn extension_of(name: Seq<char>) -> Option<Seq<char>> {
    let extension = behind_last(name, '.');
    if extension.len() + 1 < name.len() {
        Some(extension)
    } else {
        None
    }
}

/// What stands behind the last dot of the name of the file at `path`, if it has one.
pub open spec fn last_extension(path: Seq<char>) -> Option<Seq<char>> {
    match last_name(path) {
        Some(name) => extension_of(name),
        None => None,
    }
}

/// A character that parts the parts of a path, on this machine or on another.
pub open spec fn is_separator(c: char) -> bool {
    c == '/' || c == '\\'
}

/// `path` with slashes in place of its backslashes.
pub open spec fn slashed(path: Seq<char>) -> Seq<char> {
    Seq::new(
        path.len(),
        |i: int|
            if path[i] == '\\' {
                '/'
            } else {
                path[i]
            },
    )
}

/// A path that starts with the name of a drive or of another computer on no machine: its second
/// character is no colon, and it does not start with two separators.
pub open spec fn unprefixed(path: Seq<char>) -> bool {
    path.len() > 1 ==> path[1] != ':' && !(is_separator(path[0]) && is_separator(path[1]))
}

/// A path whose parts are parted by slashes alone, on every machine.
pub open spec fn plain_path(path: Seq<char>) -> bool {
    unprefixed(path) && !path.contains('\\')
}

/// `Path::extension`. Whether a backslash parts the parts of a path depends on the machine, and so
/// does what the start of a path that is not `unprefixed` means: there the extension is some part
/// that stands behind a dot and holds none, and which one is not said.
#[verifier::external_body]
fn path_extension(path: &str) -> (r: Option<String>)
    ensures
        plain_path(path@) ==> text_of(r) == last_extension(path@),
        unprefixed(path@) ==> (text_of(r) == last_extension(path@) || text_of(r) == last_extension(
            slashed(path@),
        )),
        r matches Some(extension) ==> !extension@.contains('.') && exists|i: int|
            i > 0 && path@[i - 1] == '.' && #[trigger] part_at(extension@, path@, i),
{
    Path::new(path).extension().map(|part| part.to_string_lossy().into_owned())
}

/// `Path::file_name`. Whether a backslash parts the parts of a path depends on the machine, and so
/// does what the start of a path that is not `unprefixed` means: there the file's name is some part
/// of the path, and which one is not said.
#[verifier::external_body]
fn path_file_name(path: &str) -> (r: Option<String>)
    ensures
        plain_path(path@) ==> text_of(r) == last_name(path@),
        unprefixed(path@) ==> (text_of(r) == last_name(path@) || text_of(r) == last_name(
            slashed(path@),
        )),
        r matches Some(name) ==> exists|i: int| #[trigger] part_at(name@, path@, i),
{
    Path::new(path).file_name().map(|part| part.to_string_lossy().into_owned())
}

/// The type of a file, as far as its extension tells.
pub open spec fn type_of_extension(extension: Option<Seq<char>>) -> Seq<char> {
    match extension {
        Some(extension) => match guessed_type(extension) {
            Some(content_type) => content_type,
            None => Seq::empty(),
        },
        None => Seq::empty(),
    }
}

/// The characters of `text`.
pub open spec fn text_of(text: Option<String>) -> Option<Seq<char>> {
    match text {
        Some(text) => Some(text@),
        None => None,
    }
}

/// The attachment for a file that holds `bytes`, whose type is guessed as `content_type`.
pub fn named_attachment(
    content_type: Option<String>,
    file_name: Option<String>,
    bytes: Vec<u8>,
) -> (r: (AttachmentSpec, Vec<u8>))
    ensures
        r.1@ == bytes@,
        r.0.content_type@ == (match content_type {
            Some(content_type) => content_type@,
            None => Seq::<char>::empty(),
        }),
        r.0.length == bytes@.len(),
        r.0.file_name == file_name,
        r.0.width is None,
        r.0.height is None,
{
    let content_type = match content_type {
        Some(content_type) => content_type,
        None => String::new(),
    };
    let spec = AttachmentSpec {
        content_type,
        length: bytes.len(),
        file_name,
        width: None,
        height: None,
    };
    (spec, bytes)
}

/// `item` is the attachment for the file at `path`, which holds `bytes`. Where the path has
/// backslashes, its name and its extension are read as one machine or another reads them.
pub open spec fn file_attached(
    path: Seq<char>,
    bytes: Seq<u8>,
    item: (AttachmentSpec, Vec<u8>),
) -> bool {
    let (spec, content) = item;
    &&& content@ == bytes
    &&& spec.length == bytes.len()
    &&& spec.width is None
    &&& spec.height is None
    &&& plain_path(path) ==> spec.content_type@ == type_of_extension(last_extension(path))
        && text_of(spec.file_name) == last_name(path)
    &&& unprefixed(path) ==> {
        &&& spec.content_type@ == type_of_extension(last_extension(path))
            || spec.content_type@ == type_of_extension(last_extension(slashed(path)))
        &&& text_of(spec.file_name) == last_name(path) || text_of(spec.file_name) == last_name(
            slashed(path),
        )
    }
    &&& spec.content_type@ == type_of_extension(None) || exists|extension: Seq<char>, i: int|
        i > 0 && path[i - 1] == '.' && !extension.contains('.') && #[trigger] part_at(
            extension,
            path,
            i,
        ) && spec.content_type@ == type_of_extension(Some(extension))
    &&& spec.file_name matches Some(name) ==> exists|i: int| #[trigger] part_at(name@, path, i)
}

/// The attachment for the file at `path`, which holds `bytes`.
pub fn file_attachment(path: &str, bytes: Vec<u8>) -> (r: (AttachmentSpec, Vec<u8>))
    ensures
        file_attached(path@, bytes@, r),
{
    let content_type = match path_extension(path) {
        Some(extension) => guess_type(extension.as_str()),
        None => None,
    };
    named_attachment(content_type, path_file_name(path), bytes)
}

/// What was found of what a link names.
#[derive(Debug)]
pub enum Fetched {
    /// Nothing, or it could not be read.
    Missing,
    /// The image in the clipboard.
    Image(ClipboardImage),
    /// What a file holds.
    File(Vec<u8>),
}

/// There is something to attach for `path`: an image with points where it stands for the clipboard,
/// and a file that could be read elsewhere.
pub open spec fn gives_attachment(path: Seq<char>, fetched: Fetched) -> bool {
    match fetched {
        Fetched::Missing => false,
        Fetched::Image(image) => is_clipboard_path(path) && image.complete() && image.width > 0
            && image.height > 0,
        Fetched::File(_) => !is_clipboard_path(path),
    }
}

/// `item` is what is attached for the path at index `i`.
pub open spec fn attached(
    paths: Seq<Seq<char>>,
    fetched: Seq<Fetched>,
    at: Moment,
    i: int,
    item: (AttachmentSpec, Vec<u8>),
) -> bool {
    0 <= i < paths.len() && match fetched[i] {
        Fetched::Missing => false,
        Fetched::Image(image) => image_attached(image, at, item),
        Fetched::File(bytes) => file_attached(paths[i], bytes@, item),
    }
}

/// The indices of the paths for which there is something to attach, in order.
pub open spec fn giving(paths: Seq<Seq<char>>, fetched: Seq<Fetched>) -> Seq<int>
    decreases paths.len(),
{
    if paths.len() == 0 {
        Seq::empty()
    } else {
        let last = paths.len() - 1;
        let before = giving(paths.drop_last(), fetched);
        if gives_attachment(paths[last], fetched[last]) {
            before.push(last)
        } else {
            before
        }
    }
}

/// `items` are what is attached for the paths at `indices`, one for each, in order.
pub open spec fn attached_at(
    paths: Seq<Seq<char>>,
    fetched: Seq<Fetched>,
    at: Moment,
    indices: Seq<int>,
    items: Seq<(AttachmentSpec, Vec<u8>)>,
) -> bool {
    &&& items.len() == indices.len()
    &&& forall|j: int|
        0 <= j < items.len() ==> attached(paths, fetched, at, indices[j], #[trigger] items[j])
}

/// The attachments for `paths`, of which `fetched` was found, at the moment `at`: one for each path
/// for which there is something to attach, in order, and no other.
pub fn attachments_of(paths: &Vec<String>, fetched: Vec<Fetched>, at: &Moment) -> (r: Vec<
    (AttachmentSpec, Vec<u8>),
>)
    requires
        paths@.len() == fetched@.len(),
        forall|i: int|
            0 <= i < fetched@.len() ==> ((#[trigger] fetched@[i]) matches Fetched::Image(image)
                ==> image.encodable()),
    ensures
        attached_at(
            texts(paths@),
            fetched@,
            *at,
            giving(texts(paths@), fetched@),
            r@,
        ),
{
    let ghost all = fetched@;
    let ghost names = texts(paths@);
    let mut fetched = fetched;
    let mut r: Vec<(AttachmentSpec, Vec<u8>)> = Vec::new();
    let mut i: usize = 0;
    while i < paths.len()
        invariant
            i <= paths.len(),
            paths@.len() == all.len(),
            fetched@.len() == all.len(),
            names == texts(paths@),
            forall|j: int| i <= j < all.len() ==> fetched@[j] == all[j],
            forall|j: int|
                0 <= j < all.len() ==> ((#[trigger] all[j]) matches Fetched::Image(image)
                    ==> image.encodable()),
            attached_at(names, all, *at, giving(names.take(i as int), all), r@),
        decreases paths.len() - i,
    {
        assert(names.take(i + 1).drop_last() =~= names.take(i as int));
        let ghost done = r@;
        let ghost before = giving(names.take(i as int), all);
        let ghost now = giving(names.take(i + 1), all);
        let mut item = Fetched::Missing;
        fetched.set_and_swap(i, &mut item);
        let path = paths[i].as_str();
        match (names_clipboard(path), item) {
            (true, Fetched::Image(image)) => {
                if let Some(attachment) = clipboard_attachment(image, at) {
                    r.push(attachment);
                }
            },
            (false, Fetched::File(bytes)) => {
                r.push(file_attachment(path, bytes));
            },
            _ => {},
        }
        proof {
            assert(names[i as int] == path@);
            assert(now == (if gives_attachment(path@, all[i as int]) {
                before.push(i as int)
            } else {
                before
            }));
            assert forall|j: int| 0 <= j < r@.len() implies attached(
                names,
                all,
                *at,
                now[j],
                #[trigger] r@[j],
            ) by {
                if j < done.len() {
                    assert(r@[j] == done[j]);
                    assert(now[j] == before[j]);
                } else {
                    assert(now[j] == i);
                }
            }
            assert(r@.len() == now.len());
            assert(attached_at(names, all, *at, now, r@));
        }
        i = i + 1;
    }
    assert(names.take(names.len() as int) =~= names);
    r
}

} // verus!
