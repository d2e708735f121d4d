//! What an uploaded file is called.

use crate::outside::{
    decode_percent, header_text, lowercase, mime_extensions, percent_decoded, visible_ascii,
};
use crate::text::{
    after_last, all_in, bare, ends_with, find, first_of_joined, law_padding_alone_leaves_nothing,
    law_prefixes_are_stripped, law_split_at_the_last, law_stripping_undoes_padding,
    nothing_to_split, repeated, repeated_from_the_front, split_first, split_last, split_on,
    starts_with, strip, strip_prefixes, strip_repeated, strip_start, stripped, trim, trimmed,
    CharClass,
};
use vstd::prelude::*;
use vstd::utf8::{
    char_u32_cast, decode_utf8, decode_utf8_encode_utf8, encode_scalar, encode_utf8,
    encode_utf8_decode_utf8, encode_utf8_valid_utf8, valid_utf8,
};

verus! {

/// What the bot reads of the response to a download.
pub struct ResponseHead {
    /// The path of the URL that answered.
    pub path: String,
    /// The header `Content-Disposition`, if there is one.
    pub content_disposition: Option<Vec<u8>>,
    /// The header `Content-Type`, if there is one.
    pub content_type: Option<Vec<u8>>,
    /// The number of bytes that the response announces.
    pub content_length: Option<u64>,
}

/// The texts and bytes of a [`ResponseHead`].
pub struct ResponseHeadView {
    pub path: Seq<char>,
    pub content_disposition: Option<Seq<u8>>,
    pub content_type: Option<Seq<u8>>,
    pub content_length: Option<u64>,
}

impl View for ResponseHead {
    type V = ResponseHeadView;

    open spec fn view(&self) -> ResponseHeadView {
        ResponseHeadView {
            path: self.path@,
            content_disposition: self.content_disposition.deep_view(),
            content_type: self.content_type.deep_view(),
            content_length: self.content_length,
        }
    }
}

/// A file to upload.
#[derive(Debug, PartialEq, Eq)]
pub struct FileInfo {
    /// What it is called.
    pub name: String,
    /// Whether it is taken for an MP4 video.
    pub is_video: bool,
}

/// Why a file has no name.
#[derive(Clone, Copy, Debug, PartialEq, Eq, Structural)]
pub enum FileNameError {
    /// Once decoded, the name is not valid UTF-8.
    NotUtf8,
}

/// The first of `parts` that starts with `prefix` once it is trimmed.
pub open spec fn first_with_prefix(parts: Seq<Seq<char>>, prefix: Seq<char>) -> Option<Seq<char>>
    decreases parts.len(),
{
    if parts.len() == 0 {
        None
    } else if prefix.is_prefix_of(trimmed(parts[0])) {
        Some(trimmed(parts[0]))
    } else {
        first_with_prefix(parts.skip(1), prefix)
    }
}

/// The file name that a `Content-Disposition` header gives: the first of its parts
/// between semicolons that starts with `filename=`, without that, and without
/// quotation marks at its ends.
pub open spec fn disposition_name(header: Seq<char>) -> Option<Seq<char>> {
    match first_with_prefix(split_on(header, ';'), "filename="@) {
        Some(part) => Some(
            stripped(strip_prefixes(part, "filename="@), CharClass::Only('"')),
        ),
        None => None,
    }
}

/// Reads the file name out of a `Content-Disposition` header.
pub fn name_in_disposition<'a>(header: &'a str) -> (name: Option<&'a str>)
    ensures
        name.deep_view() == disposition_name(header@),
{
    let mut rest: &'a str = header;
    loop
        invariant
            first_with_prefix(split_on(header@, ';'), "filename="@) == first_with_prefix(
                split_on(rest@, ';'),
                "filename="@,
            ),
        decreases rest@.len(),
    {
        let ghost parts = split_on(rest@, ';');
        proof {
            rest@.index_of_first_ensures(';');
        }
        let (part, tail) = split_first(rest, ';');
        let part = trim(part);
        if starts_with(part, "filename=") {
            return Some(strip(strip_repeated(part, "filename="), CharClass::Only('"')));
        }
        match tail {
            Some(tail) => {
                assert(parts.skip(1) =~= split_on(tail@, ';'));
                rest = tail;
            },
            None => {
                assert(first_with_prefix(parts.skip(1), "filename="@) is None);
                return None;
            },
        }
    }
}

/// The last segment of a URL path: what stands behind its last slash. A path that
/// does not start with a slash has no segments.
pub open spec fn last_segment(path: Seq<char>) -> Option<Seq<char>> {
    if path.len() > 0 && path[0] == '/' {
        match after_last(path.skip(1), '/') {
            Some(segment) => Some(segment),
            None => Some(path.skip(1)),
        }
    } else {
        None
    }
}

/// Reads the last segment of a URL path.
pub fn segment_of<'a>(path: &'a str) -> (segment: Option<&'a str>)
    ensures
        segment.deep_view() == last_segment(path@),
{
    let n: usize = path.unicode_len();
    if n == 0 || path.get_char(0) != '/' {
        return None;
    }
    let rest = path.substring_char(1, n);
    match split_last(rest, '/') {
        Some(segment) => Some(segment),
        None => Some(rest),
    }
}

/// The first file-name extension that goes with a content type.
pub open spec fn first_extension(content_type: Option<Seq<char>>) -> Option<Seq<char>> {
    match content_type {
        Some(content_type) => match mime_extensions(content_type) {
            Some(extensions) => if extensions.len() > 0 {
                Some(extensions[0])
            } else {
                None
            },
            None => None,
        },
        None => None,
    }
}

/// Looks up the first file-name extension that goes with a content type.
pub fn extension_for(content_type: Option<&str>) -> (extension: Option<&'static str>)
    ensures
        extension.deep_view() == first_extension(content_type.deep_view()),
{
    match content_type {
        Some(content_type) => match mime_guess::get_mime_extensions_str(content_type) {
            Some(extensions) => if extensions.len() > 0 {
                Some(extensions[0])
            } else {
                None
            },
            None => None,
        },
        None => None,
    }
}

/// The name that a path gives a file whose content type goes with `extension`: its
/// last segment, with the extension where the segment holds no dot.
pub open spec fn path_name(path: Seq<char>, extension: Option<Seq<char>>) -> Option<Seq<char>> {
    match last_segment(path) {
        Some(segment) => if segment.contains('.') {
            Some(segment)
        } else {
            match extension {
                Some(extension) => Some(segment + "."@ + extension),
                None => None,
            }
        },
        None => None,
    }
}

/// What a file is called at its source: by the header, or else by the path, or
/// else `file.bin`.
pub open spec fn source_name(
    disposition: Option<Seq<char>>,
    path: Seq<char>,
    extension: Option<Seq<char>>,
) -> Seq<char> {
    let given = match disposition {
        Some(header) => disposition_name(header),
        None => None,
    };
    match given {
        Some(name) => name,
        None => match path_name(path, extension) {
            Some(name) => name,
            None => "file.bin"@,
        },
    }
}

/// Finds out what a file is called at its source, given the extension that goes
/// with its content type.
pub fn guess_name(disposition: Option<&str>, path: &str, extension: Option<&str>) -> (name: String)
    ensures
        name@ == source_name(disposition.deep_view(), path@, extension.deep_view()),
{
    let given: Option<&str> = match disposition {
        Some(header) => name_in_disposition(header),
        None => None,
    };
    if let Some(name) = given {
        return name.to_owned();
    }
    match segment_of(path) {
        Some(segment) => {
            proof {
                segment@.index_of_first_ensures('.');
            }
            if find(segment, '.').is_some() {
                return segment.to_owned();
            }
            if let Some(extension) = extension {
                let mut name = segment.to_owned();
                name.append(".");
                name.append(extension);
                return name;
            }
        },
        None => {},
    }
    "file.bin".to_owned()
}

/// The extension of a file name: what stands behind its last dot, or `bin`.
pub open spec fn extension_of(name: Seq<char>) -> Seq<char> {
    match after_last(name, '.') {
        Some(extension) => extension,
        None => "bin"@,
    }
}

/// Reads the extension of a file name.
pub fn extension<'a>(name: &'a str) -> (out: &'a str)
    ensures
        out@ == extension_of(name@),
{
    match split_last(name, '.') {
        Some(extension) => extension,
        None => "bin",
    }
}

/// `custom` under the extension `ext`, given both in lower case: `custom` itself
/// where it ends in that extension, without regard to case, and else with the
/// extension behind it.
pub open spec fn under_extension(
    custom: Seq<char>,
    ext: Seq<char>,
    lower_custom: Seq<char>,
    lower_ext: Seq<char>,
) -> Seq<char> {
    if ("."@ + lower_ext).is_suffix_of(lower_custom) {
        custom
    } else {
        custom + "."@ + ext
    }
}

/// Puts `custom` under the extension `ext`, given both in lower case.
pub fn put_under_extension(custom: &str, ext: &str, lower_custom: &str, lower_ext: &str) -> (name:
    String)
    ensures
        name@ == under_extension(custom@, ext@, lower_custom@, lower_ext@),
{
    let mut ending = String::new();
    ending.append(".");
    ending.append(lower_ext);
    assert(ending@ =~= "."@ + lower_ext@);
    let mut name = custom.to_owned();
    if !ends_with(lower_custom, ending.as_str()) {
        name.append(".");
        name.append(ext);
    }
    name
}

/// What a file is called, before percent signs in the name are decoded: the name
/// that the user gave it, under the extension that it has at its source, or else
/// the name that it has there.
pub open spec fn chosen_name(custom: Option<Seq<char>>, source: Seq<char>) -> Seq<char> {
    match custom {
        Some(custom) => {
            let ext = extension_of(source);
            under_extension(custom, ext, lowercase(custom), lowercase(ext))
        },
        None => source,
    }
}

/// Chooses what a file is called that is called `source` at its source.
pub fn choose_name(custom: Option<&str>, source: &str) -> (name: String)
    ensures
        name@ == chosen_name(custom.deep_view(), source@),
{
    match custom {
        Some(custom) => {
            let ext = extension(source);
            put_under_extension(
                custom,
                ext,
                custom.to_lowercase().as_str(),
                ext.to_lowercase().as_str(),
            )
        },
        None => source.to_owned(),
    }
}

/// `name` with its percent signs decoded, where that gives valid UTF-8.
pub open spec fn decoded_name(name: Seq<char>) -> Option<Seq<char>> {
    let bytes = percent_decoded(encode_utf8(name));
    if valid_utf8(bytes) {
        Some(decode_utf8(bytes))
    } else {
        None
    }
}

/// Decodes the percent signs in `name`.
pub fn decode_name(name: &str) -> (decoded: Result<String, FileNameError>)
    ensures
        match decoded {
            Ok(out) => decoded_name(name@) == Some(out@),
            Err(error) => error == FileNameError::NotUtf8 && decoded_name(name@) is None,
        },
{
    match decode_percent(name) {
        Some(out) => {
            proof {
                encode_utf8_valid_utf8(out@);
                encode_utf8_decode_utf8(out@);
            }
            Ok(out)
        },
        None => Err(FileNameError::NotUtf8),
    }
}

/// Whether a file is taken for an MP4 video, by its content type or by its name,
/// given in lower case.
pub open spec fn mp4_video(content_type: Option<Seq<char>>, lower_name: Seq<char>) -> bool {
    ||| content_type is Some && "video/mp4"@.is_prefix_of(content_type->0)
    ||| ".mp4"@.is_suffix_of(lower_name)
}

/// Tells whether a file is taken for an MP4 video.
pub fn is_mp4_video(content_type: Option<&str>, lower_name: &str) -> (found: bool)
    ensures
        found == mp4_video(content_type.deep_view(), lower_name@),
{
    let by_type = match content_type {
        Some(content_type) => starts_with(content_type, "video/mp4"),
        None => false,
    };
    by_type || ends_with(lower_name, ".mp4")
}

/// What a header says, where it is there and is plain text.
pub open spec fn header_chars(header: Option<Seq<u8>>) -> Option<Seq<char>> {
    match header {
        Some(bytes) => if visible_ascii(bytes) {
            Some(bytes.map_values(|b: u8| b as char))
        } else {
            None
        },
        None => None,
    }
}

/// Reads a header as plain text.
pub fn read_header(header: &Option<Vec<u8>>) -> (text: Option<String>)
    ensures
        text.deep_view() == header_chars(header.deep_view()),
{
    match header {
        Some(bytes) => {
            assert(bytes.deep_view() =~= bytes@);
            header_text(bytes.as_slice())
        },
        None => None,
    }
}

/// What a response is called before percent signs are decoded.
pub open spec fn undecoded_name(head: ResponseHeadView, custom: Option<Seq<char>>) -> Seq<char> {
    chosen_name(
        custom,
        source_name(
            header_chars(head.content_disposition),
            head.path,
            first_extension(header_chars(head.content_type)),
        ),
    )
}

/// A text that may be missing, borrowed.
fn borrowed<'a>(text: &'a Option<String>) -> (out: Option<&'a str>)
    ensures
        out.deep_view() == text.deep_view(),
{
    match text {
        Some(text) => Some(text.as_str()),
        None => None,
    }
}

/// Finds out what the file in a response is called, for a user who asked for the
/// name `custom` or for none.
pub fn describe_file(head: &ResponseHead, custom: Option<&str>) -> (file: Result<
    FileInfo,
    FileNameError,
>)
    ensures
        match file {
            Ok(file) => {
                &&& decoded_name(undecoded_name(head@, custom.deep_view())) == Some(file.name@)
                &&& file.is_video == mp4_video(
                    header_chars(head@.content_type),
                    lowercase(file.name@),
                )
            },
            Err(error) => {
                &&& error == FileNameError::NotUtf8
                &&& decoded_name(undecoded_name(head@, custom.deep_view())) is None
            },
        },
{
    let content_type = read_header(&head.content_type);
    let content_type = borrowed(&content_type);
    let disposition = read_header(&head.content_disposition);
    let source = guess_name(
        borrowed(&disposition),
        head.path.as_str(),
        extension_for(content_type),
    );
    let name = choose_name(custom, source.as_str());
    match decode_name(name.as_str()) {
        Ok(name) => {
            let is_video = is_mp4_video(content_type, name.as_str().to_lowercase().as_str());
            Ok(FileInfo { name, is_video })
        },
        Err(error) => Err(error),
    }
}

/// Law: a name without percent signs is kept as it is.
pub proof fn law_plain_name_is_kept(name: Seq<char>)
    requires
        !name.contains('%'),
    ensures
        decoded_name(name) == Some(name),
{
    plain_text_has_no_percent_byte(name);
    nothing_to_decode(encode_utf8(name));
    encode_utf8_valid_utf8(name);
    encode_utf8_decode_utf8(name);
}

/// A text without percent signs has none in its UTF-8 form.
proof fn plain_text_has_no_percent_byte(text: Seq<char>)
    requires
        !text.contains('%'),
    ensures
        !encode_utf8(text).contains(0x25u8),
    decreases text.len(),
{
    if text.len() > 0 {
        let rest = text.drop_first();
        assert forall|i: int| 0 <= i < rest.len() implies rest[i] != '%' by {
            assert(rest[i] == text[i + 1]);
            assert(text.contains(text[i + 1]));
        }
        plain_text_has_no_percent_byte(rest);
        assert(text.contains(text[0]));
        let c: char = text[0];
        let first: u32 = c as u32;
        char_u32_cast(c, first);
        assert(c != '%');
        assert(first != 0x25);
        assert(first <= 0x7f && first != 0x25 ==> (first & 0x7F) as u8 != 0x25) by (bit_vector);
        assert(0xC0 | ((first >> 6) & 0x1F) as u8 >= 0x80u8) by (bit_vector);
        assert(0xE0 | ((first >> 12) & 0x0F) as u8 >= 0x80u8) by (bit_vector);
        assert(0xF0 | ((first >> 18) & 0x7) as u8 >= 0x80u8) by (bit_vector);
        assert(0x80 | (first & 0x3F) as u8 >= 0x80u8) by (bit_vector);
        assert(0x80 | ((first >> 6) & 0x3F) as u8 >= 0x80u8) by (bit_vector);
        assert(0x80 | ((first >> 12) & 0x3F) as u8 >= 0x80u8) by (bit_vector);
        let head = encode_scalar(first);
        assert(forall|i: int| 0 <= i < head.len() ==> head[i] != 0x25);
        let bytes = encode_utf8(text);
        assert forall|i: int| 0 <= i < bytes.len() implies bytes[i] != 0x25 by {
            if i >= head.len() {
                assert(bytes[i] == encode_utf8(rest)[i - head.len()]);
                assert(encode_utf8(rest).contains(encode_utf8(rest)[i - head.len()]));
            }
        }
    }
}

/// Bytes without percent signs are not changed by decoding them.
proof fn nothing_to_decode(bytes: Seq<u8>)
    requires
        !bytes.contains(0x25u8),
    ensures
        percent_decoded(bytes) == bytes,
    decreases bytes.len(),
{
    if bytes.len() > 0 {
        assert(bytes.contains(bytes[0]));
        let rest = bytes.skip(1);
        assert forall|i: int| 0 <= i < rest.len() implies rest[i] != 0x25 by {
            assert(bytes.contains(bytes[i + 1]));
        }
        nothing_to_decode(rest);
        assert(seq![bytes[0]] + rest =~= bytes);
    }
}

/// Law: a name that the user gives starts the name of the file, and is the whole of
/// it or has the extension of the source behind it. It is the whole of it exactly
/// where it ends in that extension already, without regard to case.
pub proof fn law_custom_name_gets_the_extension(custom: Seq<char>, source: Seq<char>)
    ensures
        ({
            let ext = extension_of(source);
            let name = chosen_name(Some(custom), source);
            &&& custom.is_prefix_of(name)
            &&& ("."@ + lowercase(ext)).is_suffix_of(lowercase(custom)) <==> name == custom
            &&& name != custom ==> name == custom + "."@ + ext && ("."@ + ext).is_suffix_of(name)
        }),
{
    reveal_strlit(".");
    let ext = extension_of(source);
    let longer = custom + "."@ + ext;
    assert(longer.len() > custom.len());
    assert(custom.subrange(0, custom.len() as int) =~= custom);
    assert(longer.subrange(0, custom.len() as int) =~= custom);
    assert(longer.subrange(custom.len() as int, longer.len() as int) =~= "."@ + ext);
}

/// Law: an extension holds no dot, so that nothing is lost of a name that is cut in
/// two at its last dot.
pub proof fn law_extension_has_no_dot(name: Seq<char>)
    ensures
        !extension_of(name).contains('.'),
        name.contains('.') ==> exists|stem: Seq<char>| name == #[trigger] (stem + "."@)
            + extension_of(name),
{
    reveal_strlit("bin");
    reveal_strlit(".");
    name.index_of_last_ensures('.');
    if name.contains('.') {
        let at = name.index_of_last('.')->0;
        let ext = name.skip(at + 1);
        assert forall|i: int| 0 <= i < ext.len() implies ext[i] != '.' by {
            assert(ext[i] == name[at + 1 + i]);
        }
        let stem = name.take(at);
        assert(name =~= (stem + "."@) + ext);
    }
}

/// Law: a segment holds no slash.
pub proof fn law_segment_has_no_slash(path: Seq<char>)
    ensures
        last_segment(path) is Some ==> !last_segment(path)->0.contains('/'),
{
    if path.len() > 0 && path[0] == '/' {
        let rest = path.skip(1);
        rest.index_of_last_ensures('/');
        if rest.contains('/') {
            let at = rest.index_of_last('/')->0;
            let segment = rest.skip(at + 1);
            assert forall|i: int| 0 <= i < segment.len() implies segment[i] != '/' by {
                assert(segment[i] == rest[at + 1 + i]);
            }
        }
    }
}

/// Law: a file name that a `Content-Disposition` header gives between quotation
/// marks, behind another part, is read back as it was written.
pub proof fn law_quoted_name_is_read(kind: Seq<char>, name: Seq<char>)
    requires
        !kind.contains(';'),
        !"filename="@.is_prefix_of(trimmed(kind)),
        !name.contains(';'),
        name.len() == 0 || bare(name, CharClass::Only('"')),
    ensures
        disposition_name(kind + seq![';', ' '] + "filename="@ + seq!['"'] + name + seq!['"'])
            == Some(name),
{
    reveal_strlit("filename=");
    let key = "filename="@;
    let quote = seq!['"'];
    let quoted = quote + name + quote;
    let part = key + quoted;
    let field = seq![' '] + part;
    let header = kind + seq![';', ' '] + key + quote + name + quote;
    assert(header =~= kind + seq![';'] + field);
    first_of_joined(kind, ';', field);
    assert forall|i: int| 0 <= i < field.len() implies field[i] != ';' by {
        if 11 <= i < 11 + name.len() {
            assert(field[i] == name[i - 11]);
            assert(name.contains(name[i - 11]));
        }
    }
    nothing_to_split(field, ';');
    assert(split_on(header, ';') =~= seq![kind, field]);
    let none = Seq::<char>::empty();
    assert(field =~= seq![' '] + part + none);
    law_stripping_undoes_padding(seq![' '], part, none, CharClass::WhiteSpace);
    assert(part.subrange(0, key.len() as int) =~= key);
    assert(seq![kind, field].skip(1) =~= seq![field]);
    assert(first_with_prefix(seq![field], key) == Some(part));
    assert(first_with_prefix(seq![kind, field], key) == Some(part));
    assert(part.skip(key.len() as int) =~= quoted);
    assert(!key.is_prefix_of(quoted)) by {
        if key.is_prefix_of(quoted) {
            assert(quoted.subrange(0, key.len() as int)[0] == '"');
        }
    }
    assert(strip_prefixes(quoted, key) == quoted);
    assert(strip_prefixes(part, key) == quoted);
    let class = CharClass::Only('"');
    if name.len() == 0 {
        reveal_with_fuel(strip_start, 3);
        assert(quoted.skip(1).skip(1) =~= none);
        assert(strip_start(quoted, class) =~= none);
        assert(name =~= none);
    } else {
        law_stripping_undoes_padding(quote, name, quote, class);
    }
}

/// Law: the last segment of a path is what was written behind the last slash, however
/// many segments stand before it. A path that does not start with a slash has none.
pub proof fn law_last_segment_is_read(dir: Seq<char>, segment: Seq<char>)
    requires
        forall|i: int| 0 <= i < segment.len() ==> #[trigger] segment[i] != '/',
    ensures
        last_segment(seq!['/'] + dir + seq!['/'] + segment) == Some(segment),
        last_segment(seq!['/'] + segment) == Some(segment),
        dir.len() == 0 || dir[0] != '/' ==> last_segment(dir) is None,
{
    law_split_at_the_last(dir, '/', segment);
    assert((seq!['/'] + dir + seq!['/'] + segment).skip(1) =~= dir + seq!['/'] + segment);
    assert((seq!['/'] + segment).skip(1) =~= segment);
}

/// Law: a path names the file by its last segment, as it is where the segment holds a
/// dot, and with the extension behind it where it does not; without an extension it then
/// gives no name.
pub proof fn law_path_names_the_file(
    path: Seq<char>,
    dir: Seq<char>,
    segment: Seq<char>,
    extension: Seq<char>,
    known: Option<Seq<char>>,
)
    requires
        forall|i: int| 0 <= i < segment.len() ==> #[trigger] segment[i] != '/',
        path == seq!['/'] + dir + seq!['/'] + segment || path == seq!['/'] + segment,
    ensures
        segment.contains('.') ==> path_name(path, known) == Some(segment),
        segment.contains('.') ==> source_name(None, path, known) == segment,
        !segment.contains('.') ==> path_name(path, Some(extension)) == Some(
            segment + seq!['.'] + extension,
        ),
        !segment.contains('.') ==> source_name(None, path, Some(extension)) == segment + seq!['.']
            + extension,
        !segment.contains('.') ==> path_name(path, None) is None,
        !segment.contains('.') ==> source_name(None, path, None) == "file.bin"@,
{
    law_last_segment_is_read(dir, segment);
    reveal_strlit(".");
    assert("."@ =~= seq!['.']);
}

/// Law: a header that gives a name decides, whatever the path is; one that gives none
/// is as good as no header; and a path without segments gives no name.
pub proof fn law_header_comes_before_the_path(
    header: Seq<char>,
    path: Seq<char>,
    extension: Option<Seq<char>>,
)
    ensures
        disposition_name(header) is Some ==> source_name(Some(header), path, extension)
            == disposition_name(header)->0,
        disposition_name(header) is None ==> source_name(Some(header), path, extension)
            == source_name(None, path, extension),
        path.len() == 0 || path[0] != '/' ==> path_name(path, extension) is None && source_name(
            None,
            path,
            extension,
        ) == "file.bin"@,
{
}

/// Law: a `Content-Disposition` header gives the name in the first of its parts that
/// starts with `filename=` behind white space, without that, even if it is written more
/// than once, and without the quotation marks around it.
pub proof fn law_header_names_the_file(
    header: Seq<char>,
    i: int,
    copies: nat,
    before: Seq<char>,
    name: Seq<char>,
    behind: Seq<char>,
)
    requires
        0 <= i < split_on(header, ';').len(),
        forall|j: int|
            0 <= j < i ==> !"filename="@.is_prefix_of(trimmed(#[trigger] split_on(header, ';')[j])),
        copies > 0,
        trimmed(split_on(header, ';')[i]) == repeated("filename="@, copies) + (before + name
            + behind),
        all_in(before, CharClass::Only('"')),
        all_in(behind, CharClass::Only('"')),
        name.len() == 0 || bare(name, CharClass::Only('"')),
        !"filename="@.is_prefix_of(before + name + behind),
    ensures
        disposition_name(header) == Some(name),
{
    reveal_strlit("filename=");
    let key = "filename="@;
    let value = before + name + behind;
    let parts = split_on(header, ';');
    let part = repeated(key, copies) + value;
    repeated_from_the_front(key, copies);
    assert(part.subrange(0, key.len() as int) =~= key);
    first_marked_part(parts, key, i);
    law_prefixes_are_stripped(key, copies, value);
    if name.len() == 0 {
        law_padding_alone_leaves_nothing(value, CharClass::Only('"'));
        assert(name =~= Seq::empty());
    } else {
        law_stripping_undoes_padding(before, name, behind, CharClass::Only('"'));
    }
}

proof fn first_marked_part(parts: Seq<Seq<char>>, prefix: Seq<char>, i: int)
    requires
        0 <= i < parts.len(),
        forall|j: int| 0 <= j < i ==> !prefix.is_prefix_of(trimmed(#[trigger] parts[j])),
        prefix.is_prefix_of(trimmed(parts[i])),
    ensures
        first_with_prefix(parts, prefix) == Some(trimmed(parts[i])),
    decreases parts.len(),
{
    if i > 0 {
        let rest = parts.skip(1);
        assert(!prefix.is_prefix_of(trimmed(parts[0])));
        assert forall|j: int| 0 <= j < i - 1 implies !prefix.is_prefix_of(
            trimmed(#[trigger] rest[j]),
        ) by {
            assert(rest[j] == parts[j + 1]);
        }
        first_marked_part(rest, prefix, i - 1);
    }
}

/// Law: a `Content-Disposition` header without a part that starts with `filename=` gives
/// no name.
pub proof fn law_other_headers_give_no_name(header: Seq<char>)
    requires
        forall|j: int|
            0 <= j < split_on(header, ';').len() ==> !"filename="@.is_prefix_of(
                trimmed(#[trigger] split_on(header, ';')[j]),
            ),
    ensures
        disposition_name(header) is None,
{
    no_marked_part(split_on(header, ';'), "filename="@);
}

proof fn no_marked_part(parts: Seq<Seq<char>>, prefix: Seq<char>)
    requires
        forall|j: int|
            0 <= j < parts.len() ==> !prefix.is_prefix_of(trimmed(#[trigger] parts[j])),
    ensures
        first_with_prefix(parts, prefix) is None,
    decreases parts.len(),
{
    if parts.len() > 0 {
        let rest = parts.skip(1);
        assert(!prefix.is_prefix_of(trimmed(parts[0])));
        assert forall|j: int| 0 <= j < rest.len() implies !prefix.is_prefix_of(
            trimmed(#[trigger] rest[j]),
        ) by {
            assert(rest[j] == parts[j + 1]);
        }
        no_marked_part(rest, prefix);
    }
}

/// Law: the extension that goes with a content type is the first of those that are
/// known for it, if any is.
pub proof fn law_first_extension_counts(content_type: Seq<char>)
    ensures
        first_extension(None) is None,
        first_extension(Some(content_type)) is Some <==> mime_extensions(content_type) is Some
            && mime_extensions(content_type)->0.len() > 0,
        first_extension(Some(content_type)) is Some ==> first_extension(Some(content_type))
            == Some(mime_extensions(content_type)->0[0]),
{
}

/// Law: the extension of a name is what was written behind its last dot, and `bin`
/// where it holds none.
pub proof fn law_extension_is_read(stem: Seq<char>, ext: Seq<char>)
    requires
        forall|i: int| 0 <= i < ext.len() ==> #[trigger] ext[i] != '.',
    ensures
        extension_of(stem + seq!['.'] + ext) == ext,
        extension_of(ext) == seq!['b', 'i', 'n'],
{
    law_split_at_the_last(stem, '.', ext);
    reveal_strlit("bin");
    assert("bin"@ =~= seq!['b', 'i', 'n']);
}

/// Law: a name that ends in a dot and the extension, both in lower case, is kept;
/// behind any other one the dot and the extension are put, as they are.
pub proof fn law_missing_extension_is_put(
    custom: Seq<char>,
    ext: Seq<char>,
    stem: Seq<char>,
    lower_custom: Seq<char>,
    lower_ext: Seq<char>,
)
    ensures
        under_extension(custom, ext, stem + seq!['.'] + lower_ext, lower_ext) == custom,
        (forall|stem: Seq<char>| lower_custom != #[trigger] (stem + seq!['.']) + lower_ext)
            ==> under_extension(custom, ext, lower_custom, lower_ext) == custom + seq!['.'] + ext,
{
    reveal_strlit(".");
    let ending = "."@ + lower_ext;
    assert("."@ =~= seq!['.']);
    let whole = stem + seq!['.'] + lower_ext;
    assert(whole.subrange(stem.len() as int, whole.len() as int) =~= ending);
    if ending.is_suffix_of(lower_custom) {
        let cut = lower_custom.len() - ending.len();
        let start = lower_custom.take(cut);
        assert(lower_custom.subrange(cut, lower_custom.len() as int) =~= ending);
        assert(lower_custom =~= start + ending);
        assert(lower_custom =~= (start + seq!['.']) + lower_ext);
    }
}

/// Law: a file is called as at its source where the user gives it no name, and else by
/// the user's name, under the extension of the source.
pub proof fn law_user_chooses_the_name(custom: Seq<char>, source: Seq<char>)
    ensures
        chosen_name(None, source) == source,
        chosen_name(Some(custom), source) == under_extension(
            custom,
            extension_of(source),
            lowercase(custom),
            lowercase(extension_of(source)),
        ),
{
}

/// Law: a decoded name is the one text whose bytes are the decoded bytes of the name,
/// and there is none exactly where these are not valid UTF-8.
pub proof fn law_decoding_is_of_the_bytes(name: Seq<char>, decoded: Seq<char>)
    ensures
        decoded_name(name) == Some(decoded) <==> encode_utf8(decoded) == percent_decoded(
            encode_utf8(name),
        ),
        decoded_name(name) is None <==> !valid_utf8(percent_decoded(encode_utf8(name))),
{
    encode_utf8_valid_utf8(decoded);
    encode_utf8_decode_utf8(decoded);
    let bytes = percent_decoded(encode_utf8(name));
    if valid_utf8(bytes) {
        decode_utf8_encode_utf8(bytes);
    }
}

/// Law: a file is taken for a video exactly where its content type starts with
/// `video/mp4`, or its name, in lower case, ends in `.mp4`.
pub proof fn law_videos_are_recognised(
    content_type: Option<Seq<char>>,
    lower_name: Seq<char>,
    rest: Seq<char>,
)
    ensures
        mp4_video(Some("video/mp4"@ + rest), lower_name),
        mp4_video(content_type, rest + ".mp4"@),
        mp4_video(content_type, lower_name) ==> {
            ||| content_type is Some && content_type->0 == "video/mp4"@ + content_type->0.skip(9)
            ||| lower_name == lower_name.take(lower_name.len() - 4) + ".mp4"@
        },
{
    reveal_strlit("video/mp4");
    reveal_strlit(".mp4");
    let typed = "video/mp4"@ + rest;
    assert(typed.subrange(0, 9) =~= "video/mp4"@);
    let named = rest + ".mp4"@;
    assert(named.subrange(named.len() - 4, named.len() as int) =~= ".mp4"@);
    if content_type is Some && "video/mp4"@.is_prefix_of(content_type->0) {
        let whole = content_type->0;
        assert(whole =~= whole.subrange(0, 9) + whole.skip(9));
    }
    if ".mp4"@.is_suffix_of(lower_name) {
        let n = lower_name.len() as int;
        assert(lower_name =~= lower_name.take(n - 4) + lower_name.subrange(n - 4, n));
    }
}

/// Law: a header is read byte by byte where each of its bytes is visible, and else not
/// at all.
pub proof fn law_headers_are_read_byte_by_byte(bytes: Seq<u8>)
    ensures
        header_chars(None) is None,
        header_chars(Some(bytes)) is Some <==> visible_ascii(bytes),
        visible_ascii(bytes) ==> header_chars(Some(bytes))->0.len() == bytes.len(),
        forall|i: int|
            visible_ascii(bytes) && 0 <= i < bytes.len() ==> #[trigger] header_chars(
                Some(bytes),
            )->0[i] == bytes[i] as char,
{
}

/// Law: a response is called as its headers and its path say, unless the user gives it
/// a name. The content type counts only for the extension, where the path needs one.
pub proof fn law_responses_are_named(
    head: ResponseHeadView,
    custom: Seq<char>,
    dir: Seq<char>,
    segment: Seq<char>,
    extension: Seq<char>,
)
    requires
        forall|i: int| 0 <= i < segment.len() ==> #[trigger] segment[i] != '/',
        head.path == seq!['/'] + dir + seq!['/'] + segment || head.path == seq!['/'] + segment,
    ensures
        ({
            let header = header_chars(head.content_disposition);
            let given = if header is Some {
                disposition_name(header->0)
            } else {
                None
            };
            let guessed = first_extension(header_chars(head.content_type));
            let name = undecoded_name(head, None);
            &&& given is Some ==> name == given->0
            &&& given is None && segment.contains('.') ==> name == segment
            &&& given is None && !segment.contains('.') && guessed == Some(extension) ==> name
                == segment + seq!['.'] + extension
            &&& given is None && !segment.contains('.') && guessed is None ==> name
                == "file.bin"@
            &&& undecoded_name(head, Some(custom)) == chosen_name(Some(custom), name)
        }),
{
    law_path_names_the_file(
        head.path,
        dir,
        segment,
        extension,
        first_extension(header_chars(head.content_type)),
    );
}

/// Law: the head of a response has the texts, bytes and numbers that it was made of.
pub proof fn law_heads_show_what_they_hold(head: ResponseHead)
    ensures
        head@.path == head.path@,
        head@.content_length == head.content_length,
        head@.content_disposition is None <==> head.content_disposition is None,
        head@.content_type is None <==> head.content_type is None,
        head.content_disposition is Some ==> head@.content_disposition == Some(
            head.content_disposition->0@,
        ),
        head.content_type is Some ==> head@.content_type == Some(head.content_type->0@),
{
    if head.content_disposition is Some {
        assert(head.content_disposition->0.deep_view() =~= head.content_disposition->0@);
    }
    if head.content_type is Some {
        assert(head.content_type->0.deep_view() =~= head.content_type->0@);
    }
}

/// Law: a response whose headers give no name and whose path has no segments is called
/// `file.bin`, and one whose headers give a name is called by it, whatever its path is.
pub proof fn law_responses_without_segments(head: ResponseHeadView, header: Seq<char>)
    ensures
        head.path.len() == 0 || head.path[0] != '/' ==> {
            &&& head.content_disposition is None ==> undecoded_name(head, None) == "file.bin"@
            &&& header_chars(head.content_disposition) == Some(header) && disposition_name(
                header,
            ) is None ==> undecoded_name(head, None) == "file.bin"@
        },
        header_chars(head.content_disposition) == Some(header) && disposition_name(header) is Some
            ==> undecoded_name(head, None) == disposition_name(header)->0,
{
}

}
