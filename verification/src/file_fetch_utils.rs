//! Serving asset files to the frontend: where the button-functions file and
//! an icon stand, which media type an icon's extension means, and the data
//! URL its bytes encode to. Reading the files is the caller's business.

use vstd::prelude::*;
use crate::env_utils::app_data_dir_spec;
use crate::env_utils::get_app_data_dir;
use crate::paths::join_spec;
use crate::paths::join_str;
use crate::text::chars_eq_str;
use crate::text::chars_to_string;
use crate::text::copy_range;
use crate::text::push_str_chars;
use crate::text::str_to_chars;

verus! {

/// Where the button-functions file stands: the configured assets directory
/// and relative path (with their defaults) under the configured root — or
/// an error when no root is configured.
pub fn button_functions_path(
    root_dir: Option<String>,
    assets_dir: Option<String>,
    rel_path: Option<String>,
) -> (r: Result<String, String>)
    ensures
        match root_dir {
            Some(root) => r matches Ok(p) && p@ == join_spec(
                join_spec(
                    root@,
                    match assets_dir {
                        Some(a) => a@,
                        None => "src-tauri/assets"@,
                    },
                ),
                match rel_path {
                    Some(b) => b@,
                    None => "data/buttonFunctions.json"@,
                },
            ),
            None => r matches Err(m) && m@ == "environment variable not found"@,
        },
{
    match root_dir {
        Some(root) => {
            let assets = match assets_dir {
                Some(a) => a,
                None => {
                    let mut v: Vec<char> = Vec::new();
                    push_str_chars(&mut v, "src-tauri/assets");
                    chars_to_string(&v)
                },
            };
            let rel = match rel_path {
                Some(b) => b,
                None => {
                    let mut v: Vec<char> = Vec::new();
                    push_str_chars(&mut v, "data/buttonFunctions.json");
                    chars_to_string(&v)
                },
            };
            let a = join_str(root.as_str(), assets.as_str());
            Ok(join_str(a.as_str(), rel.as_str()))
        },
        None => {
            let mut v: Vec<char> = Vec::new();
            push_str_chars(&mut v, "environment variable not found");
            Err(chars_to_string(&v))
        },
    }
}

/// Where an icon stands: an absolute path is taken as it is; a relative one
/// (with one leading slash stripped) lives under the application data
/// directory. The caller says whether the path is absolute on its platform.
pub fn resolve_icon_path(
    icon_path: &str,
    is_absolute: bool,
    app_name: Option<String>,
    local_app_data: Option<String>,
    app_data: Option<String>,
) -> (r: String)
    ensures
        is_absolute ==> r@ == icon_path@,
        !is_absolute ==> r@ == join_spec(
            app_data_dir_spec(
                match app_name {
                    Some(n) => Some(n@),
                    None => None,
                },
                match local_app_data {
                    Some(l) => Some(l@),
                    None => None,
                },
                match app_data {
                    Some(a) => Some(a@),
                    None => None,
                },
            ),
            (if icon_path@.len() > 0 && (icon_path@[0] == '/' || icon_path@[0] == '\\') {
                icon_path@.subrange(1, icon_path@.len() as int)
            } else {
                icon_path@
            }),
        ),
{
    let chars = str_to_chars(icon_path);
    if is_absolute {
        return chars_to_string(&chars);
    }
    let clean = if chars.len() > 0 && (chars[0] == '/' || chars[0] == '\\') {
        copy_range(&chars, 1, chars.len())
    } else {
        copy_range(&chars, 0, chars.len())
    };
    proof {
        assert(chars@.subrange(0, chars@.len() as int) =~= chars@);
    }
    let dir = get_app_data_dir(app_name, local_app_data, app_data);
    let clean_str = chars_to_string(&clean);
    join_str(dir.as_str(), clean_str.as_str())
}

/// The media type an icon extension means; anything unrecognized is served
/// as opaque bytes.
pub open spec fn mime_for_extension_spec(ext: Seq<char>) -> Seq<char> {
    if ext == "png"@ {
        "image/png"@
    } else if ext == "jpg"@ || ext == "jpeg"@ {
        "image/jpeg"@
    } else if ext == "svg"@ {
        "image/svg+xml"@
    } else if ext == "gif"@ {
        "image/gif"@
    } else if ext == "webp"@ {
        "image/webp"@
    } else {
        "application/octet-stream"@
    }
}

/// The media type for an extension, as `mime_for_extension_spec` describes;
/// a path without an extension gets the opaque type.
pub fn mime_for_extension(ext: Option<&str>) -> (r: &'static str)
    ensures
        match ext {
            Some(e) => r@ == mime_for_extension_spec(e@),
            None => r@ == "application/octet-stream"@,
        },
{
    match ext {
        Some(e) => {
            let chars = str_to_chars(e);
            if chars_eq_str(&chars, "png") {
                "image/png"
            } else if chars_eq_str(&chars, "jpg") || chars_eq_str(&chars, "jpeg") {
                "image/jpeg"
            } else if chars_eq_str(&chars, "svg") {
                "image/svg+xml"
            } else if chars_eq_str(&chars, "gif") {
                "image/gif"
            } else if chars_eq_str(&chars, "webp") {
                "image/webp"
            } else {
                "application/octet-stream"
            }
        },
        None => "application/octet-stream",
    }
}

/// What the standard base64 alphabet, with padding, encodes `data` to. The
/// result depends on the bytes alone.
pub uninterp spec fn base64_standard(data: Seq<u8>) -> Seq<char>;

/// Relies on `base64::engine::general_purpose::STANDARD.encode`: the
/// standard-alphabet, padded base64 encoding of the bytes; empty bytes
/// encode to the empty string.
#[verifier::external_body]
fn base64_encode(data: &Vec<u8>) -> (r: String)
    requires
        data@.len() <= usize::MAX / 4,
    ensures
        r@ == base64_standard(data@),
        data@.len() == 0 ==> r@.len() == 0,
{
    base64::Engine::encode(&base64::engine::general_purpose::STANDARD, data)
}

/// The data URL serving `data` with the media type for `ext`:
/// `data:<mime>;base64,<encoded>`.
pub fn icon_data_url(ext: Option<&str>, data: &Vec<u8>) -> (r: String)
    requires
        data@.len() <= usize::MAX / 4,
    ensures
        r@ == "data:"@ + (match ext {
            Some(e) => mime_for_extension_spec(e@),
            None => "application/octet-stream"@,
        }) + ";base64,"@ + base64_standard(data@),
{
    let mime = mime_for_extension(ext);
    let encoded = base64_encode(data);
    let mut v: Vec<char> = Vec::new();
    push_str_chars(&mut v, "data:");
    push_str_chars(&mut v, mime);
    push_str_chars(&mut v, ";base64,");
    push_str_chars(&mut v, encoded.as_str());
    assert(v@ =~= "data:"@ + (match ext {
        Some(e) => mime_for_extension_spec(e@),
        None => "application/octet-stream"@,
    }) + ";base64,"@ + base64_standard(data@));
    chars_to_string(&v)
}

} // verus!
