use vstd::prelude::*;

use crate::text::chars_of;

verus! {

/// What `Path::extension` gives for a path.
pub uninterp spec fn extension_of(path: Seq<char>) -> Option<Seq<char>>;

/// Relies on `std::path::Path::extension`: the part of the file name after
/// its last `.`, if there is one.
#[verifier::external_body]
fn path_extension(path: &str) -> (r: Option<String>)
    ensures
        match r {
            Some(e) => extension_of(path@) == Some(e@),
            None => extension_of(path@) is None,
        },
{
    match std::path::Path::new(path).extension() {
        Some(e) => Some(e.to_string_lossy().into_owned()),
        None => None,
    }
}

/// The icon name for a file with extension `ext`.
pub open spec fn extension_icon(ext: Seq<char>) -> Seq<char> {
    if ext == "default"@ {
        "application-octet-stream"@
    } else if ext == "abw"@ {
        "application-x-abiword"@
    } else if ext == "arc"@ {
        "application-x-freearc"@
    } else if ext == "azw"@ {
        "application-vnd.amazon.ebook"@
    } else if ext == "bin"@ {
        "application-octet-stream"@
    } else if ext == "bz"@ {
        "application-x-bzip"@
    } else if ext == "bz2"@ {
        "application-x-bzip2"@
    } else if ext == "cda"@ {
        "application-x-cdf"@
    } else if ext == "csh"@ {
        "application-x-csh"@
    } else if ext == "doc"@ {
        "application-msword"@
    } else if ext == "docx"@ {
        "application-vnd.openxmlformats-officedocument.wordprocessingml.document"@
    } else if ext == "eot"@ {
        "application-vnd.ms-fontobject"@
    } else if ext == "epub"@ {
        "application-epub+zip"@
    } else if ext == "gz"@ {
        "application-gzip"@
    } else if ext == "jar"@ {
        "application-java-archive"@
    } else if ext == "json"@ {
        "application-json"@
    } else if ext == "jsonld"@ {
        "application-ld+json"@
    } else if ext == "mpkg"@ {
        "application-vnd.apple.installer+xml"@
    } else if ext == "odp"@ {
        "application-vnd.oasis.opendocument.presentation"@
    } else if ext == "ods"@ {
        "application-vnd.oasis.opendocument.spreadsheet"@
    } else if ext == "odt"@ {
        "application-vnd.oasis.opendocument.text"@
    } else if ext == "ogx"@ {
        "application-ogg"@
    } else if ext == "pdf"@ {
        "application-pdf"@
    } else if ext == "php"@ {
        "application-x-httpd-php"@
    } else if ext == "ppt"@ {
        "application-vnd.ms-powerpoint"@
    } else if ext == "pptx"@ {
        "application-vnd.openxmlformats-officedocument.presentationml.presentation"@
    } else if ext == "rar"@ {
        "application-vnd.rar"@
    } else if ext == "rtf"@ {
        "application-rtf"@
    } else if ext == "sh"@ {
        "application-x-sh"@
    } else if ext == "tar"@ {
        "application-x-tar"@
    } else if ext == "vsd"@ {
        "application-vnd.visio"@
    } else if ext == "xhtml"@ {
        "application-xhtml+xml"@
    } else if ext == "xls"@ {
        "application-vnd.ms-excel"@
    } else if ext == "xlsx"@ {
        "application-vnd.openxmlformats-officedocument.spreadsheetml.sheet"@
    } else if ext == "xml"@ {
        "application-xml"@
    } else if ext == "xul"@ {
        "application-vnd.mozilla.xul+xml"@
    } else if ext == "zip"@ {
        "application-zip"@
    } else if ext == "7z"@ {
        "application-x-7z-compressed"@
    } else if ext == "aac"@ {
        "audio-aac"@
    } else if ext == "mid"@ {
        "audio-midi"@
    } else if ext == "midi"@ {
        "audio-x-midi"@
    } else if ext == "mp3"@ {
        "audio-mpeg"@
    } else if ext == "oga"@ {
        "audio-ogg"@
    } else if ext == "opus"@ {
        "audio-opus"@
    } else if ext == "wav"@ {
        "audio-wav"@
    } else if ext == "weba"@ {
        "audio-webm"@
    } else if ext == "otf"@ {
        "font-otf"@
    } else if ext == "woff"@ {
        "font-woff"@
    } else if ext == "woff2"@ {
        "font-woff2"@
    } else if ext == "avif"@ {
        "image-avif"@
    } else if ext == "bmp"@ {
        "image-bmp"@
    } else if ext == "gif"@ {
        "image-gif"@
    } else if ext == "ico"@ {
        "image-vnd.microsoft.icon"@
    } else if ext == "jpeg"@ || ext == "jpg"@ {
        "image-jpeg"@
    } else if ext == "png"@ {
        "image-png"@
    } else if ext == "svg"@ {
        "image-svg+xml"@
    } else if ext == "tif"@ || ext == "tiff"@ {
        "image-tiff"@
    } else if ext == "webp"@ {
        "image-webp"@
    } else if ext == "css"@ {
        "text-css"@
    } else if ext == "csv"@ {
        "text-csv"@
    } else if ext == "htm"@ || ext == "html"@ {
        "text-html"@
    } else if ext == "ics"@ {
        "text-calendar"@
    } else if ext == "js"@ || ext == "mjs"@ {
        "text-javascript"@
    } else if ext == "txt"@ {
        "text-plain"@
    } else if ext == "avi"@ {
        "video-x-msvideo"@
    } else if ext == "mkv"@ {
        "video-x-generic"@
    } else if ext == "mp4"@ {
        "video-mp4"@
    } else if ext == "mpeg"@ {
        "video-mpeg"@
    } else if ext == "ogv"@ {
        "video-ogg"@
    } else if ext == "ts"@ || ext == "ttf"@ {
        "video-mp2t"@
    } else if ext == "webm"@ {
        "video-webm"@
    } else if ext == "3gp"@ {
        "video-3gpp"@
    } else if ext == "3g2"@ {
        "video-3gpp2"@
    } else {
        "unknown"@
    }
}

/// The icon name for an entry: a folder for a directory, an executable for a
/// file without extension, otherwise by extension.
pub open spec fn icon_for(is_dir: bool, ext: Option<Seq<char>>) -> Seq<char> {
    if is_dir {
        "folder"@
    } else {
        match ext {
            None => "application-x-executable"@,
            Some(e) => extension_icon(e),
        }
    }
}

/// Whether `a` and `b` hold the same characters.
pub fn same_text(a: &str, b: &str) -> (r: bool)
    ensures
        r == (a@ == b@),
{
    let x = chars_of(a);
    let y = chars_of(b);
    if x.len() != y.len() {
        return false;
    }
    let mut i: usize = 0;
    while i < x.len()
        invariant
            x@ == a@,
            y@ == b@,
            x@.len() == y@.len(),
            i <= x@.len(),
            forall|k: int| 0 <= k < i ==> x@[k] == y@[k],
        decreases x@.len() - i,
    {
        if x[i] != y[i] {
            return false;
        }
        i = i + 1;
    }
    assert(x@ =~= y@);
    true
}

/// The icon name for a file with extension `ext`.
fn extension_icon_name(ext: &str) -> (r: &'static str)
    ensures
        r@ == extension_icon(ext@),
{
    if same_text(ext, "default") {
        "application-octet-stream"
    } else if same_text(ext, "abw") {
        "application-x-abiword"
    } else if same_text(ext, "arc") {
        "application-x-freearc"
    } else if same_text(ext, "azw") {
        "application-vnd.amazon.ebook"
    } else if same_text(ext, "bin") {
        "application-octet-stream"
    } else if same_text(ext, "bz") {
        "application-x-bzip"
    } else if same_text(ext, "bz2") {
        "application-x-bzip2"
    } else if same_text(ext, "cda") {
        "application-x-cdf"
    } else if same_text(ext, "csh") {
        "application-x-csh"
    } else if same_text(ext, "doc") {
        "application-msword"
    } else if same_text(ext, "docx") {
        "application-vnd.openxmlformats-officedocument.wordprocessingml.document"
    } else if same_text(ext, "eot") {
        "application-vnd.ms-fontobject"
    } else if same_text(ext, "epub") {
        "application-epub+zip"
    } else if same_text(ext, "gz") {
        "application-gzip"
    } else if same_text(ext, "jar") {
        "application-java-archive"
    } else if same_text(ext, "json") {
        "application-json"
    } else if same_text(ext, "jsonld") {
        "application-ld+json"
    } else if same_text(ext, "mpkg") {
        "application-vnd.apple.installer+xml"
    } else if same_text(ext, "odp") {
        "application-vnd.oasis.opendocument.presentation"
    } else if same_text(ext, "ods") {
        "application-vnd.oasis.opendocument.spreadsheet"
    } else if same_text(ext, "odt") {
        "application-vnd.oasis.opendocument.text"
    } else if same_text(ext, "ogx") {
        "application-ogg"
    } else if same_text(ext, "pdf") {
        "application-pdf"
    } else if same_text(ext, "php") {
        "application-x-httpd-php"
    } else if same_text(ext, "ppt") {
        "application-vnd.ms-powerpoint"
    } else if same_text(ext, "pptx") {
        "application-vnd.openxmlformats-officedocument.presentationml.presentation"
    } else if same_text(ext, "rar") {
        "application-vnd.rar"
    } else if same_text(ext, "rtf") {
        "application-rtf"
    } else if same_text(ext, "sh") {
        "application-x-sh"
    } else if same_text(ext, "tar") {
        "application-x-tar"
    } else if same_text(ext, "vsd") {
        "application-vnd.visio"
    } else if same_text(ext, "xhtml") {
        "application-xhtml+xml"
    } else if same_text(ext, "xls") {
        "application-vnd.ms-excel"
    } else if same_text(ext, "xlsx") {
        "application-vnd.openxmlformats-officedocument.spreadsheetml.sheet"
    } else if same_text(ext, "xml") {
        "application-xml"
    } else if same_text(ext, "xul") {
        "application-vnd.mozilla.xul+xml"
    } else if same_text(ext, "zip") {
        "application-zip"
    } else if same_text(ext, "7z") {
        "application-x-7z-compressed"
    } else if same_text(ext, "aac") {
        "audio-aac"
    } else if same_text(ext, "mid") {
        "audio-midi"
    } else if same_text(ext, "midi") {
        "audio-x-midi"
    } else if same_text(ext, "mp3") {
        "audio-mpeg"
    } else if same_text(ext, "oga") {
        "audio-ogg"
    } else if same_text(ext, "opus") {
        "audio-opus"
    } else if same_text(ext, "wav") {
        "audio-wav"
    } else if same_text(ext, "weba") {
        "audio-webm"
    } else if same_text(ext, "otf") {
        "font-otf"
    } else if same_text(ext, "woff") {
        "font-woff"
    } else if same_text(ext, "woff2") {
        "font-woff2"
    } else if same_text(ext, "avif") {
        "image-avif"
    } else if same_text(ext, "bmp") {
        "image-bmp"
    } else if same_text(ext, "gif") {
        "image-gif"
    } else if same_text(ext, "ico") {
        "image-vnd.microsoft.icon"
    } else if same_text(ext, "jpeg") || same_text(ext, "jpg") {
        "image-jpeg"
    } else if same_text(ext, "png") {
        "image-png"
    } else if same_text(ext, "svg") {
        "image-svg+xml"
    } else if same_text(ext, "tif") || same_text(ext, "tiff") {
        "image-tiff"
    } else if same_text(ext, "webp") {
        "image-webp"
    } else if same_text(ext, "css") {
        "text-css"
    } else if same_text(ext, "csv") {
        "text-csv"
    } else if same_text(ext, "htm") || same_text(ext, "html") {
        "text-html"
    } else if same_text(ext, "ics") {
        "text-calendar"
    } else if same_text(ext, "js") || same_text(ext, "mjs") {
        "text-javascript"
    } else if same_text(ext, "txt") {
        "text-plain"
    } else if same_text(ext, "avi") {
        "video-x-msvideo"
    } else if same_text(ext, "mkv") {
        "video-x-generic"
    } else if same_text(ext, "mp4") {
        "video-mp4"
    } else if same_text(ext, "mpeg") {
        "video-mpeg"
    } else if same_text(ext, "ogv") {
        "video-ogg"
    } else if same_text(ext, "ts") || same_text(ext, "ttf") {
        "video-mp2t"
    } else if same_text(ext, "webm") {
        "video-webm"
    } else if same_text(ext, "3gp") {
        "video-3gpp"
    } else if same_text(ext, "3g2") {
        "video-3gpp2"
    } else {
        "unknown"
    }
}

/// The icon name for the entry at `path`, which is a directory or not.
pub fn get_icon_name_from_path(path: &str, is_dir: bool) -> (r: &'static str)
    ensures
        r@ == icon_for(is_dir, extension_of(path@)),
{
    if is_dir {
        return "folder";
    }
    match path_extension(path) {
        None => "application-x-executable",
        Some(ext) => extension_icon_name(ext.as_str()),
    }
}

} // verus!
