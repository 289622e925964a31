//! Images handed over by the page (base64 data URLs) and the texts of the
//! native dialogs: decoding a payload, a safe file name to save it under,
//! what saving or copying an image does before the system is asked, and the
//! prompt dialog's message and answer.
use vstd::prelude::*;
use vstd::string::StringExecFns;
use vstd::utf8::encode_utf8;
use base64::Engine;
use crate::text::{
    chars_of, string_of, push_all, is_ws, is_whitespace, trim_spec, trim_chars, after_last,
    after_last_char, decimal, push_decimal,
};
use crate::i18n::{translate, translate_spec, pairs_view};

verus! {

// ---------------------------------------------------------------------------
// Base64
// ---------------------------------------------------------------------------

/// Why base64 input was refused (the variants of `base64::DecodeError`).
pub enum Base64Error {
    /// a byte outside the alphabet, at an offset: `(offset, byte)`
    InvalidByte(usize, u8),
    /// the number of symbols is impossible
    InvalidLength(usize),
    /// the last symbol has bits set that would be dropped: `(offset, byte)`
    InvalidLastSymbol(usize, u8),
    InvalidPadding,
}

/// The message of the error, as `base64::DecodeError`'s `Display` writes it.
pub open spec fn base64_error_message(e: Base64Error) -> Seq<char> {
    match e {
        Base64Error::InvalidByte(i, b) => "Invalid symbol "@ + decimal(b as nat) + ", offset "@ + decimal(
            i as nat,
        ) + "."@,
        Base64Error::InvalidLength(n) => "Invalid input length: "@ + decimal(n as nat),
        Base64Error::InvalidLastSymbol(i, b) => "Invalid last symbol "@ + decimal(b as nat) + ", offset "@
            + decimal(i as nat) + "."@,
        Base64Error::InvalidPadding => "Invalid padding"@,
    }
}

impl Base64Error {
    pub fn message(&self) -> (r: String)
        ensures
            r@ == base64_error_message(*self),
    {
        let mut v: Vec<char>;
        match self {
            Base64Error::InvalidByte(i, b) => {
                v = chars_of("Invalid symbol ");
                push_decimal(&mut v, *b as u64);
                push_all(&mut v, &chars_of(", offset "));
                push_decimal(&mut v, *i as u64);
                push_all(&mut v, &chars_of("."));
            },
            Base64Error::InvalidLength(n) => {
                v = chars_of("Invalid input length: ");
                push_decimal(&mut v, *n as u64);
            },
            Base64Error::InvalidLastSymbol(i, b) => {
                v = chars_of("Invalid last symbol ");
                push_decimal(&mut v, *b as u64);
                push_all(&mut v, &chars_of(", offset "));
                push_decimal(&mut v, *i as u64);
                push_all(&mut v, &chars_of("."));
            },
            Base64Error::InvalidPadding => {
                v = chars_of("Invalid padding");
            },
        }
        string_of(&v)
    }
}

/// What the standard base64 engine (`base64::engine::general_purpose::STANDARD`)
/// makes of some input bytes.
pub uninterp spec fn base64_decoded(input: Seq<u8>) -> Result<Seq<u8>, Base64Error>;

/// `STANDARD.decode`, its error's variant copied into `Base64Error`.
/// Claimed: the outcome depends on the input alone and is named
/// `base64_decoded`.
#[verifier::external_body]
fn base64_standard_decode(data: &[u8]) -> (r: Result<Vec<u8>, Base64Error>)
    ensures
        match r {
            Ok(v) => base64_decoded(data@) == Ok::<Seq<u8>, Base64Error>(v@),
            Err(e) => base64_decoded(data@) == Err::<Seq<u8>, Base64Error>(e),
        },
{
    match base64::engine::general_purpose::STANDARD.decode(data) {
        Ok(v) => Ok(v),
        Err(base64::DecodeError::InvalidByte(i, b)) => Err(Base64Error::InvalidByte(i, b)),
        Err(base64::DecodeError::InvalidLength(n)) => Err(Base64Error::InvalidLength(n)),
        Err(base64::DecodeError::InvalidLastSymbol(i, b)) => Err(Base64Error::InvalidLastSymbol(i, b)),
        Err(base64::DecodeError::InvalidPadding) => Err(Base64Error::InvalidPadding),
    }
}

/// `s` without its whitespace characters.
pub open spec fn remove_ws(s: Seq<char>) -> Seq<char>
    decreases s.len(),
{
    if s.len() == 0 {
        s
    } else {
        remove_ws(s.drop_last()) + (if is_ws(s.last()) { Seq::empty() } else { seq![s.last()] })
    }
}

fn remove_whitespace(v: &[char]) -> (r: Vec<char>)
    ensures
        r@ == remove_ws(v@),
{
    let mut out: Vec<char> = Vec::new();
    let mut i: usize = 0;
    while i < v.len()
        invariant
            i <= v.len(),
            out@ == remove_ws(v@.take(i as int)),
        decreases v.len() - i,
    {
        let c = v[i];
        if !is_whitespace(c) {
            out.push(c);
        }
        proof {
            let t = v@.take(i + 1);
            assert(t.drop_last() =~= v@.take(i as int));
            assert(t.last() == c);
            assert(out@ =~= remove_ws(t));
        }
        i = i + 1;
    }
    assert(v@.take(v.len() as int) =~= v@);
    out
}

/// The base64 text of an image payload: a data URL's part after its last
/// comma (or the whole trimmed text), whitespace removed.
pub open spec fn payload_data(payload: Seq<char>) -> Seq<char> {
    remove_ws(after_last(trim_spec(payload), ','))
}

/// What decoding an image payload gives: the bytes, or the decoder's message.
pub open spec fn decode_payload_spec(payload: Seq<char>) -> Result<Seq<u8>, Seq<char>> {
    match base64_decoded(encode_utf8(payload_data(payload))) {
        Ok(b) => Ok(b),
        Err(e) => Err(base64_error_message(e)),
    }
}

pub fn decode_image_payload(payload: &str) -> (r: Result<Vec<u8>, String>)
    ensures
        match r {
            Ok(b) => decode_payload_spec(payload@) == Ok::<Seq<u8>, Seq<char>>(b@),
            Err(m) => decode_payload_spec(payload@) == Err::<Seq<u8>, Seq<char>>(m@),
        },
{
    let trimmed = trim_chars(&chars_of(payload));
    let data = remove_whitespace(&after_last_char(&trimmed, ','));
    let text = string_of(&data);
    match base64_standard_decode(text.as_str().as_bytes()) {
        Ok(b) => Ok(b),
        Err(e) => Err(e.message()),
    }
}

// ---------------------------------------------------------------------------
// File names
// ---------------------------------------------------------------------------

/// Characters kept in a saved file's name.
pub open spec fn is_safe_name_char(c: char) -> bool {
    let u = c as u32;
    (48 <= u <= 57) || (65 <= u <= 90) || (97 <= u <= 122) || c == '.' || c == '-' || c == '_'
}

pub open spec fn keep_safe(s: Seq<char>) -> Seq<char>
    decreases s.len(),
{
    if s.len() == 0 {
        s
    } else {
        keep_safe(s.drop_last()) + (if is_safe_name_char(s.last()) { seq![s.last()] } else { Seq::empty() })
    }
}

/// The name an image is offered under: the last path component (either
/// slash), stripped to ASCII letters, digits, `.`, `-` and `_`; a name
/// that ends up empty or starting with a dot becomes `haven-image.png`.
pub open spec fn safe_filename_spec(name: Seq<char>) -> Seq<char> {
    let cleaned = keep_safe(after_last(crate::text::replace_char_spec(name, '\\', seq!['/']), '/'));
    if cleaned.len() == 0 || cleaned[0] == '.' {
        "haven-image.png"@
    } else {
        cleaned
    }
}

fn keep_safe_chars(v: &[char]) -> (r: Vec<char>)
    ensures
        r@ == keep_safe(v@),
{
    let mut out: Vec<char> = Vec::new();
    let mut i: usize = 0;
    while i < v.len()
        invariant
            i <= v.len(),
            out@ == keep_safe(v@.take(i as int)),
        decreases v.len() - i,
    {
        let c = v[i];
        let u = c as u32;
        if (48 <= u && u <= 57) || (65 <= u && u <= 90) || (97 <= u && u <= 122) || c == '.' || c == '-'
            || c == '_' {
            out.push(c);
        }
        proof {
            let t = v@.take(i + 1);
            assert(t.drop_last() =~= v@.take(i as int));
            assert(t.last() == c);
            assert(out@ =~= keep_safe(t));
        }
        i = i + 1;
    }
    assert(v@.take(v.len() as int) =~= v@);
    out
}

pub fn safe_filename(name: &str) -> (r: String)
    ensures
        r@ == safe_filename_spec(name@),
{
    let slash: Vec<char> = vec!['/'];
    assert(slash@ =~= seq!['/']);
    let base = crate::text::replace_char(&chars_of(name), '\\', slash.as_slice());
    let leaf = after_last_char(&base, '/');
    let cleaned = keep_safe_chars(&leaf);
    if cleaned.len() == 0 || cleaned[0] == '.' {
        String::from_str("haven-image.png")
    } else {
        string_of(&cleaned)
    }
}

/// The extension offered in the save dialog: the part after the last dot.
pub fn image_extension(name: &str) -> (r: String)
    ensures
        r@ == after_last(name@, '.'),
{
    string_of(&after_last_char(&chars_of(name), '.'))
}

// ---------------------------------------------------------------------------
// Saving and copying an image
// ---------------------------------------------------------------------------

/// What saving an image comes to before the file dialog.
pub enum SavePlan {
    /// nothing was handed over
    NoPayload,
    /// the payload is not base64: the save fails with this message
    Undecodable(String),
    /// the payload decodes to nothing
    EmptyImage,
    /// ask where to save `bytes`, offering `name` and the extension `ext`
    Save { bytes: Vec<u8>, name: String, ext: String },
}

pub fn save_image_plan(payload: &str, filename: Option<&str>) -> (r: SavePlan)
    ensures
        payload@.len() == 0 ==> r is NoPayload,
        payload@.len() > 0 ==> match decode_payload_spec(payload@) {
            Err(m) => r matches SavePlan::Undecodable(e) && e@ == m,
            Ok(b) => if b.len() == 0 {
                r is EmptyImage
            } else {
                r matches SavePlan::Save { bytes, name, ext } && bytes@ == b
                    && name@ == safe_filename_spec(match filename { Some(f) => f@, None => "haven-image.png"@ })
                    && ext@ == after_last(name@, '.')
            },
        },
{
    if payload.is_empty() {
        return SavePlan::NoPayload;
    }
    let bytes = match decode_image_payload(payload) {
        Ok(b) => b,
        Err(e) => return SavePlan::Undecodable(e),
    };
    if bytes.len() == 0 {
        return SavePlan::EmptyImage;
    }
    let name = match filename {
        Some(f) => safe_filename(f),
        None => safe_filename("haven-image.png"),
    };
    let ext = image_extension(name.as_str());
    SavePlan::Save { bytes, name, ext }
}

/// What a PNG file decodes to with `tiny_skia::Pixmap::decode_png`, its
/// pixels demultiplied: straight RGBA bytes, width and height.
pub uninterp spec fn png_rgba(data: Seq<u8>) -> Option<(Seq<u8>, u32, u32)>;

/// `tiny_skia::Pixmap::decode_png`, then each pixel's `demultiply` written
/// out as red, green, blue and alpha. Claimed: the outcome depends on the
/// bytes alone and is named `png_rgba`.
#[verifier::external_body]
fn decode_png_rgba(data: &[u8]) -> (r: Option<(Vec<u8>, u32, u32)>)
    ensures
        match r {
            Some((px, w, h)) => png_rgba(data@) == Some((px@, w, h)),
            None => png_rgba(data@) is None,
        },
{
    let pm = tiny_skia::Pixmap::decode_png(data).ok()?;
    let mut rgba = Vec::with_capacity(pm.data().len());
    for px in pm.pixels() {
        let c = px.demultiply();
        rgba.extend_from_slice(&[c.red(), c.green(), c.blue(), c.alpha()]);
    }
    Some((rgba, pm.width(), pm.height()))
}

/// What copying an image comes to before the clipboard is asked.
pub enum ClipboardImage {
    /// nothing was handed over
    NoPayload,
    /// not base64: refused with the decoder's message
    Undecodable(String),
    /// base64, but not a PNG image
    NotPng,
    /// an image: straight RGBA bytes, width, height
    Image { rgba: Vec<u8>, width: u32, height: u32 },
}

pub fn clipboard_image(payload: &str) -> (r: ClipboardImage)
    ensures
        payload@.len() == 0 ==> r is NoPayload,
        payload@.len() > 0 ==> match decode_payload_spec(payload@) {
            Err(m) => r matches ClipboardImage::Undecodable(e) && e@ == m,
            Ok(b) => match png_rgba(b) {
                None => r is NotPng,
                Some((px, w, h)) => r matches ClipboardImage::Image { rgba, width, height } && rgba@ == px
                    && width == w && height == h,
            },
        },
{
    if payload.is_empty() {
        return ClipboardImage::NoPayload;
    }
    let bytes = match decode_image_payload(payload) {
        Ok(b) => b,
        Err(e) => return ClipboardImage::Undecodable(e),
    };
    match decode_png_rgba(bytes.as_slice()) {
        Some((rgba, width, height)) => ClipboardImage::Image { rgba, width, height },
        None => ClipboardImage::NotPng,
    }
}

// ---------------------------------------------------------------------------
// The prompt dialog
// ---------------------------------------------------------------------------

/// The prompt's message: the page's message, followed by a line naming the
/// default value when there is one.
pub open spec fn prompt_message_spec(locale: Seq<char>, message: Seq<char>, default: Seq<char>) -> Seq<char> {
    if default.len() == 0 {
        message
    } else {
        message + "\n\n"@ + translate_spec(locale, "dialog.defaultValue"@, seq![("value"@, default)])
    }
}

pub fn prompt_message(locale: &str, message: &str, default_value: &str) -> (r: String)
    ensures
        r@ == prompt_message_spec(locale@, message@, default_value@),
{
    let mut v = chars_of(message);
    if chars_of(default_value).len() > 0 {
        push_all(&mut v, &chars_of("\n\n"));
        let pairs: Vec<(String, String)> = vec![(String::from_str("value"), String::from_str(default_value))];
        assert(pairs_view(pairs@) =~= seq![("value"@, default_value@)]);
        push_all(&mut v, &chars_of(translate(locale, "dialog.defaultValue", pairs.as_slice()).as_str()));
    }
    string_of(&v)
}

/// The prompt's answer: the default value (empty when none) when the user
/// pressed OK, nothing when cancelled.
pub fn prompt_answer(ok: bool, default_value: Option<String>) -> (r: Option<String>)
    ensures
        ok ==> (r matches Some(s) && s@ == (match default_value { Some(d) => d@, None => Seq::<char>::empty() })),
        !ok ==> r is None,
{
    if ok {
        match default_value {
            Some(d) => Some(d),
            None => Some(String::new()),
        }
    } else {
        None
    }
}

} // verus!
