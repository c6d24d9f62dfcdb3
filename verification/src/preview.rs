//! Preview strings for the selected entry. The extension decides: a
//! directory announces itself, a known image format becomes an inline-image
//! escape sequence for the terminal, a known text format shows its first
//! characters, anything else a fixed notice. The caller reads the file and
//! hands the bytes in; nothing here touches the filesystem.

use vstd::prelude::*;

use base64::Engine;

use crate::entry::{FileData, FileView};
use crate::text::{push_char, str_eq};
use vstd::string::StringExecFns;

verus! {

// ---------------------------------------------------------------------------
// The base64 payload of the inline-image sequence
// ---------------------------------------------------------------------------
/// The standard base64 encoding of `bytes`, with padding. The alphabet is
/// the outside engine's; its output depends on the bytes alone.
pub uninterp spec fn base64_of(bytes: Seq<u8>) -> Seq<char>;

/// Relies on base64's `general_purpose::STANDARD` engine: the standard
/// alphabet with padding, so the output holds four characters for every
/// three input bytes, the last group padded. The engine panics only when
/// that output length overflows `usize`, which the caller rules out.
#[verifier::external_body]
fn base64_standard(bytes: &Vec<u8>) -> (r: String)
    requires
        4 * ((bytes@.len() + 2) / 3) <= usize::MAX,
    ensures
        r@ == base64_of(bytes@),
        r@.len() == 4 * ((bytes@.len() + 2) / 3),
{
    base64::engine::general_purpose::STANDARD.encode(bytes)
}

// ---------------------------------------------------------------------------
// Decimal rendering of the size field
// ---------------------------------------------------------------------------
/// The decimal digit character for one digit value.
pub open spec fn digit_char(d: nat) -> char {
    if d == 0 {
        '0'
    } else if d == 1 {
        '1'
    } else if d == 2 {
        '2'
    } else if d == 3 {
        '3'
    } else if d == 4 {
        '4'
    } else if d == 5 {
        '5'
    } else if d == 6 {
        '6'
    } else if d == 7 {
        '7'
    } else if d == 8 {
        '8'
    } else {
        '9'
    }
}

/// `n` written in decimal, most significant digit first.
pub open spec fn dec_of(n: nat) -> Seq<char>
    decreases n,
{
    if n < 10 {
        seq![digit_char(n)]
    } else {
        dec_of(n / 10) + seq![digit_char(n % 10)]
    }
}

fn digit_char_x(d: usize) -> (r: char)
    requires
        d < 10,
    ensures
        r == digit_char(d as nat),
{
    match d {
        0 => '0',
        1 => '1',
        2 => '2',
        3 => '3',
        4 => '4',
        5 => '5',
        6 => '6',
        7 => '7',
        8 => '8',
        _ => '9',
    }
}

fn usize_to_dec(n: usize) -> (r: String)
    ensures
        r@ == dec_of(n as nat),
    decreases n,
{
    if n < 10 {
        let mut s = String::new();
        push_char(&mut s, digit_char_x(n));
        proof {
            assert(s@ =~= dec_of(n as nat));
        }
        s
    } else {
        let mut s = usize_to_dec(n / 10);
        push_char(&mut s, digit_char_x(n % 10));
        proof {
            assert(s@ =~= dec_of(n as nat));
        }
        s
    }
}

// ---------------------------------------------------------------------------
// The three preview forms
// ---------------------------------------------------------------------------
/// The size field of the inline-image sequence: the encoded length less a
/// fixed allowance, never below zero.
pub open spec fn iterm_size(n: nat) -> nat {
    let e = 4 * ((n + 2) / 3);
    if e >= 100 {
        (e - 100) as nat
    } else {
        0
    }
}

/// The whole inline-image escape sequence for one file's bytes, after the
/// iTerm image protocol: header, decimal size, colon, base64 payload, bell.
pub open spec fn iterm_of(bytes: Seq<u8>) -> Seq<char> {
    "\x1b]1337;File=inline=1;size="@ + dec_of(iterm_size(bytes.len())) + ":"@ + base64_of(bytes)
        + "\x07"@
}

/// A byte shown as the character with its value.
pub open spec fn byte_char(b: u8) -> char {
    b as char
}

/// The first characters of a text file, capped at `limit`.
pub open spec fn text_preview_of(bytes: Seq<u8>, limit: int) -> Seq<char> {
    let m = if limit <= bytes.len() {
        limit
    } else {
        bytes.len() as int
    };
    bytes.take(m).map_values(|b: u8| byte_char(b))
}

/// Extensions previewed as inline images.
pub open spec fn is_image_ext(e: Seq<char>) -> bool {
    ||| e == "jpg"@
    ||| e == "jpeg"@
    ||| e == "png"@
    ||| e == "gif"@
    ||| e == "bmp"@
    ||| e == "tiff"@
    ||| e == "tif"@
    ||| e == "webp"@
    ||| e == "svg"@
    ||| e == "ico"@
    ||| e == "psd"@
}

/// Extensions previewed as text.
pub open spec fn is_text_ext(e: Seq<char>) -> bool {
    ||| e == "txt"@
    ||| e == "pdf"@
    ||| e == "doc"@
    ||| e == "md"@
    ||| e == "rs"@
    ||| e == "py"@
    ||| e == "js"@
    ||| e == "ts"@
    ||| e == "svelte"@
    ||| e == "html"@
    ||| e == "hs"@
    ||| e == "ml"@
    ||| e == "c"@
    ||| e == "cpp"@
    ||| e == "h"@
    ||| e == "zig"@
    ||| e == "go"@
    ||| e == "json"@
    ||| e == "toml"@
    ||| e == "MAKEFILE"@
    ||| e == "Makefile"@
    ||| e == "makefile"@
}

/// What the preview of an entry shows for its bytes: the string, and
/// whether it must be printed raw because it is a terminal escape sequence.
pub open spec fn preview_of(e: FileView, bytes: Seq<u8>, limit: int) -> (Seq<char>, bool) {
    if e.extension.len() == 0 {
        ("directory"@, false)
    } else if is_image_ext(e.extension) {
        (iterm_of(bytes), true)
    } else if is_text_ext(e.extension) {
        (text_preview_of(bytes, limit), false)
    } else {
        ("Unsupported file extension"@, false)
    }
}

fn is_image(ext: &str) -> (r: bool)
    ensures
        r == is_image_ext(ext@),
{
    str_eq(ext, "jpg") || str_eq(ext, "jpeg") || str_eq(ext, "png") || str_eq(ext, "gif")
        || str_eq(ext, "bmp") || str_eq(ext, "tiff") || str_eq(ext, "tif") || str_eq(ext, "webp")
        || str_eq(ext, "svg") || str_eq(ext, "ico") || str_eq(ext, "psd")
}

fn is_text(ext: &str) -> (r: bool)
    ensures
        r == is_text_ext(ext@),
{
    str_eq(ext, "txt") || str_eq(ext, "pdf") || str_eq(ext, "doc") || str_eq(ext, "md") || str_eq(
        ext,
        "rs",
    ) || str_eq(ext, "py") || str_eq(ext, "js") || str_eq(ext, "ts") || str_eq(ext, "svelte")
        || str_eq(ext, "html") || str_eq(ext, "hs") || str_eq(ext, "ml") || str_eq(ext, "c")
        || str_eq(ext, "cpp") || str_eq(ext, "h") || str_eq(ext, "zig") || str_eq(ext, "go")
        || str_eq(ext, "json") || str_eq(ext, "toml") || str_eq(ext, "MAKEFILE") || str_eq(
        ext,
        "Makefile",
    ) || str_eq(ext, "makefile")
}

/// The inline-image escape sequence for one file's bytes.
fn iterm_inline_img(content: &Vec<u8>) -> (r: (String, bool))
    requires
        4 * ((content@.len() + 2) / 3) <= usize::MAX,
    ensures
        r.0@ == iterm_of(content@),
        r.1 == true,
{
    let encoded = base64_standard(content);
    let el = encoded.as_str().unicode_len();
    let size: usize = if el >= 100 {
        el - 100
    } else {
        0
    };
    let mut out = String::from_str("\x1b]1337;File=inline=1;size=");
    let num = usize_to_dec(size);
    out.append(num.as_str());
    out.append(":");
    out.append(encoded.as_str());
    out.append("\x07");
    proof {
        assert(out@ =~= iterm_of(content@));
    }
    (out, true)
}

impl FileData {
    /// The first characters of the given file content, capped at
    /// `char_limit`; each byte is shown as the character with its value.
    pub fn text_preview(&self, content: &Vec<u8>, char_limit: u16) -> (r: (String, bool))
        ensures
            r.0@ == text_preview_of(content@, char_limit as int),
            r.1 == false,
    {
        let m: usize = if (char_limit as usize) <= content.len() {
            char_limit as usize
        } else {
            content.len()
        };
        let mut out = String::new();
        proof {
            assert(out@ =~= content@.take(0).map_values(|b: u8| byte_char(b)));
        }
        for i in 0..m
            invariant
                m <= content.len(),
                out@ == content@.take(i as int).map_values(|b: u8| byte_char(b)),
        {
            push_char(&mut out, content[i] as char);
            proof {
                assert(out@ =~= content@.take(i + 1).map_values(|b: u8| byte_char(b)));
            }
        }
        proof {
            assert(m as int == if char_limit as int <= content@.len() {
                char_limit as int
            } else {
                content@.len() as int
            });
        }
        (out, false)
    }

    /// The preview string for this entry, given its file content and a cap
    /// on text length, and whether that string is a raw escape sequence.
    /// The extension decides between a directory notice, an inline image,
    /// capped text, and an unsupported-format notice.
    pub fn as_preview_string(&self, char_limit: u16, content: &Vec<u8>) -> (r: (String, bool))
        requires
            4 * ((content@.len() + 2) / 3) <= usize::MAX,
        ensures
            r.0@ == preview_of(self@, content@, char_limit as int).0,
            r.1 == preview_of(self@, content@, char_limit as int).1,
    {
        let ext = self.extension.as_str();
        if ext.unicode_len() == 0 {
            (String::from_str("directory"), false)
        } else if is_image(ext) {
            iterm_inline_img(content)
        } else if is_text(ext) {
            self.text_preview(content, char_limit)
        } else {
            (String::from_str("Unsupported file extension"), false)
        }
    }
}

} // verus!
