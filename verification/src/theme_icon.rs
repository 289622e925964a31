//! Theme colours for the app icon, the tray icon and the title bar.
//!
//! Each theme of the web app has a background and an accent colour; the
//! desktop paints its icon and caption bar with that pair.
use vstd::prelude::*;
use vstd::utf8::encode_utf8;
use crate::text::{
    ascii_lowercase, chars_eq, chars_of, lower_ascii_seq, replace_char, replace_char_spec,
    starts_with, starts_with_spec, string_of, sub_chars, trim_chars, trim_spec,
};

verus! {

/// (theme id as the web app writes it in `data-theme`, background, accent)
pub open spec fn theme_table() -> Seq<(&'static str, u32, u32)> {
    seq![
        ("abyss", 0x040810, 0x1a5aff),
        ("amni", 0x0a0a0a, 0x00ff9d),
        ("amni-ai", 0x0a0a0a, 0xffb74d),
        ("amni-calc", 0x0a0a0a, 0xff6b35),
        ("amni-core", 0x0a0a0a, 0xef5350),
        ("amni-crypt", 0x0a0a0a, 0x2979ff),
        ("amni-explore", 0x0a0a0a, 0x00b4ff),
        ("amni-haven", 0x0a0a0a, 0x7c5cfc),
        ("amni-light", 0xf4f4f4, 0x00875a),
        ("bloodborne", 0x0a0000, 0xcc0020),
        ("braid", 0x0b0d12, 0x00ff9d),
        ("braid-light", 0xf7f7f8, 0x00875a),
        ("chapel", 0x0e0c18, 0x8a5cf0),
        ("crt", 0x080808, 0xffb000),
        ("cyberpunk", 0x0a0a12, 0xff2d6f),
        ("darksouls", 0x0c0a08, 0xc8a84e),
        ("discord", 0x313338, 0x5865f2),
        ("dracula", 0x1a1b26, 0xbd93f9),
        ("eldenring", 0x08080e, 0xd4a832),
        ("fallout", 0x0a0e08, 0x14fe17),
        ("ffx", 0x080e1a, 0x40a8e0),
        ("gospel", 0xf5f0e8, 0x8b2032),
        ("halo", 0x0d1a0d, 0xd4a020),
        ("haven", 0x191b28, 0x7c5cfc),
        ("holo", 0x000000, 0x33b5e5),
        ("ice", 0x0a1520, 0x00d4ff),
        ("lotr", 0x1a1510, 0xd4a844),
        ("matrix", 0x0a0a0a, 0x00ff41),
        ("midnightpurple", 0x0d0a1a, 0x8a5cf6),
        ("minecraft", 0x1a1a1a, 0x55bb55),
        ("nord", 0x2e3440, 0x88c0d0),
        ("scripture", 0x1a1610, 0xc8a84c),
        ("tron", 0x0c141f, 0x6fecff),
        ("win95", 0xbfbfbf, 0x000080),
        ("zelda", 0x0a120a, 0x44bb44)
    ]
}

fn theme_entries() -> (r: Vec<(&'static str, u32, u32)>)
    ensures
        r@ == theme_table(),
{
    vec![
        ("abyss", 0x040810, 0x1a5aff),
        ("amni", 0x0a0a0a, 0x00ff9d),
        ("amni-ai", 0x0a0a0a, 0xffb74d),
        ("amni-calc", 0x0a0a0a, 0xff6b35),
        ("amni-core", 0x0a0a0a, 0xef5350),
        ("amni-crypt", 0x0a0a0a, 0x2979ff),
        ("amni-explore", 0x0a0a0a, 0x00b4ff),
        ("amni-haven", 0x0a0a0a, 0x7c5cfc),
        ("amni-light", 0xf4f4f4, 0x00875a),
        ("bloodborne", 0x0a0000, 0xcc0020),
        ("braid", 0x0b0d12, 0x00ff9d),
        ("braid-light", 0xf7f7f8, 0x00875a),
        ("chapel", 0x0e0c18, 0x8a5cf0),
        ("crt", 0x080808, 0xffb000),
        ("cyberpunk", 0x0a0a12, 0xff2d6f),
        ("darksouls", 0x0c0a08, 0xc8a84e),
        ("discord", 0x313338, 0x5865f2),
        ("dracula", 0x1a1b26, 0xbd93f9),
        ("eldenring", 0x08080e, 0xd4a832),
        ("fallout", 0x0a0e08, 0x14fe17),
        ("ffx", 0x080e1a, 0x40a8e0),
        ("gospel", 0xf5f0e8, 0x8b2032),
        ("halo", 0x0d1a0d, 0xd4a020),
        ("haven", 0x191b28, 0x7c5cfc),
        ("holo", 0x000000, 0x33b5e5),
        ("ice", 0x0a1520, 0x00d4ff),
        ("lotr", 0x1a1510, 0xd4a844),
        ("matrix", 0x0a0a0a, 0x00ff41),
        ("midnightpurple", 0x0d0a1a, 0x8a5cf6),
        ("minecraft", 0x1a1a1a, 0x55bb55),
        ("nord", 0x2e3440, 0x88c0d0),
        ("scripture", 0x1a1610, 0xc8a84c),
        ("tron", 0x0c141f, 0x6fecff),
        ("win95", 0xbfbfbf, 0x000080),
        ("zelda", 0x0a120a, 0x44bb44)
    ]
}

pub open spec fn table_colors(t: Seq<(&'static str, u32, u32)>, key: Seq<char>) -> Option<(u32, u32)>
    decreases t.len(),
{
    if t.len() == 0 {
        None
    } else if t[0].0@ == key {
        Some((t[0].1, t[0].2))
    } else {
        table_colors(t.drop_first(), key)
    }
}

/// A theme id as looked up: trimmed, ASCII lower case, `_` read as `-`.
pub open spec fn theme_key(theme: Seq<char>) -> Seq<char> {
    replace_char_spec(lower_ascii_seq(trim_spec(theme)), '_', seq!['-'])
}

pub open spec fn lookup_spec(theme: Seq<char>) -> Option<(u32, u32)> {
    table_colors(theme_table(), theme_key(theme))
}

/// The (background, accent) pair of a known theme.
pub fn lookup(theme: &str) -> (r: Option<(u32, u32)>)
    ensures
        r == lookup_spec(theme@),
{
    let dash = vec!['-'];
    assert(dash@ == seq!['-']);
    let key = replace_char(&ascii_lowercase(&trim_chars(&chars_of(theme))), '_', &dash);
    let t = theme_entries();
    let mut i: usize = 0;
    assert(t@.skip(0) =~= t@);
    while i < t.len()
        invariant
            i <= t.len(),
            t@ == theme_table(),
            key@ == theme_key(theme@),
            lookup_spec(theme@) == table_colors(t@.skip(i as int), key@),
        decreases t.len() - i,
    {
        assert(t@.skip(i as int).drop_first() =~= t@.skip(i + 1));
        assert(t@.skip(i as int)[0] == t@[i as int]);
        let (id, bg, fg) = t[i];
        if chars_eq(&chars_of(id), &key) {
            return Some((bg, fg));
        }
        i = i + 1;
    }
    None
}

// ---------------------------------------------------------------------------
// CSS colours
// ---------------------------------------------------------------------------

/// A CSS colour as far as it is read without floating point: a hex colour's
/// value, or the text of the first three channels of `rgb(...)`/`rgba(...)`.
pub enum CssColor {
    Hex(u32),
    Channels(String, String, String),
}

pub enum CssColorView {
    Hex(u32),
    Channels(Seq<char>, Seq<char>, Seq<char>),
}

impl View for CssColor {
    type V = CssColorView;

    open spec fn view(&self) -> CssColorView {
        match self {
            CssColor::Hex(v) => CssColorView::Hex(*v),
            CssColor::Channels(r, g, b) => CssColorView::Channels(r@, g@, b@),
        }
    }
}

pub open spec fn hex_digit_value(b: u8) -> Option<nat> {
    if 48 <= b <= 57 {
        Some((b - 48) as nat)
    } else if 65 <= b <= 70 {
        Some((b - 55) as nat)
    } else if 97 <= b <= 102 {
        Some((b - 87) as nat)
    } else {
        None
    }
}

pub open spec fn all_hex(d: Seq<u8>) -> bool {
    forall|i: int| 0 <= i < d.len() ==> (#[trigger] hex_digit_value(d[i])) is Some
}

pub open spec fn hex_value(d: Seq<u8>) -> nat
    decreases d.len(),
{
    if d.len() == 0 {
        0
    } else {
        hex_value(d.drop_last()) * 16 + match hex_digit_value(d.last()) {
            Some(v) => v,
            None => 0,
        }
    }
}

/// Non-hex colours are ignored: a `#` colour names a colour only when it has
/// 3, 4, 6 or 8 bytes after the `#` and every one of them is a hexadecimal
/// digit (so neither `#+ab` nor `#aaé` names one), and the colour is a
/// 24-bit value.
pub proof fn law_colour_needs_hex_digits(bytes: Seq<u8>)
    ensures
        hex_color_spec(bytes) matches Some(c) ==> (bytes.len() == 3 || bytes.len() == 4 || bytes.len() == 6
            || bytes.len() == 8) && all_hex(bytes) && c <= 0xFFFFFF,
{
    if hex_color_spec(bytes) is Some {
        if bytes.len() == 6 || bytes.len() == 8 {
            lemma_hex_value_bound(bytes.take(6));
            reveal_with_fuel(pow16, 7);
        } else {
            lemma_hex_value_bound(bytes.take(3));
            reveal_with_fuel(pow16, 4);
            let v = hex_value(bytes.take(3));
            assert(expand_short_hex(v) <= 0xFFFFFF) by (nonlinear_arith)
                requires
                    v < 4096,
                    expand_short_hex(v) == (v / 256 % 16) * 0x110000 + (v / 16 % 16) * 0x1100 + (v % 16) * 0x11,
            ;
        }
    }
}

proof fn lemma_hex_value_push(d: Seq<u8>, x: u8)
    ensures
        hex_value(d.push(x)) == hex_value(d) * 16 + match hex_digit_value(x) {
            Some(v) => v,
            None => 0,
        },
{
    assert(d.push(x).drop_last() =~= d);
}

proof fn lemma_all_hex_prefix(d: Seq<u8>, n: int)
    requires
        all_hex(d),
        0 <= n <= d.len(),
    ensures
        all_hex(d.take(n)),
{
    assert forall|i: int| 0 <= i < d.take(n).len() implies (#[trigger] hex_digit_value(d.take(n)[i])) is Some by {
        assert(d.take(n)[i] == d[i]);
        assert(hex_digit_value(d[i]) is Some);
    }
}

proof fn lemma_short_widens(x: nat, y: nat, z: nat)
    requires
        x < 16,
        y < 16,
        z < 16,
    ensures
        expand_short_hex((x * 16 + y) * 16 + z) == ((((x * 16 + x) * 16 + y) * 16 + y) * 16 + z) * 16 + z,
{
    let v = (x * 16 + y) * 16 + z;
    assert(v == x * 256 + y * 16 + z) by (nonlinear_arith)
        requires
            v == (x * 16 + y) * 16 + z,
    ;
    assert(v / 256 == x) by (nonlinear_arith)
        requires
            v == x * 256 + y * 16 + z,
            x < 16,
            y < 16,
            z < 16,
    ;
    assert(v / 16 == x * 16 + y) by (nonlinear_arith)
        requires
            v == x * 256 + y * 16 + z,
            y < 16,
            z < 16,
    ;
    assert((x * 16 + y) % 16 == y) by (nonlinear_arith)
        requires
            y < 16,
    ;
    assert(v % 16 == z) by (nonlinear_arith)
        requires
            v == (x * 16 + y) * 16 + z,
            z < 16,
    ;
    assert(x % 16 == x);
    assert(((((x * 16 + x) * 16 + y) * 16 + y) * 16 + z) * 16 + z == x * 0x110000 + y * 0x1100 + z * 0x11)
        by (nonlinear_arith);
}

/// The value of a hex colour: six digits `#rrggbb` give exactly the number
/// they spell, below `0x1000000`; eight digits `#rrggbbaa` give the colour of
/// their first six (the alpha is dropped), four digits `#rgba` that of their
/// first three, and three digits `#rgb` the same colour as `#rrggbb`.
pub proof fn law_hex_colour_values(bytes: Seq<u8>)
    requires
        all_hex(bytes),
    ensures
        bytes.len() == 6 ==> (hex_color_spec(bytes) matches Some(c) && c == hex_value(bytes) && hex_value(bytes) < 0x1000000),
        bytes.len() == 8 ==> hex_color_spec(bytes) == hex_color_spec(bytes.take(6)),
        bytes.len() == 4 ==> hex_color_spec(bytes) == hex_color_spec(bytes.take(3)),
        bytes.len() == 3 ==> hex_color_spec(bytes) == hex_color_spec(
            seq![bytes[0], bytes[0], bytes[1], bytes[1], bytes[2], bytes[2]],
        ),
{
    if bytes.len() == 6 {
        assert(bytes.take(6) =~= bytes);
        lemma_hex_value_bound(bytes);
        reveal_with_fuel(pow16, 7);
    } else if bytes.len() == 8 {
        lemma_all_hex_prefix(bytes, 6);
        assert(bytes.take(6).take(6) =~= bytes.take(6));
    } else if bytes.len() == 4 {
        lemma_all_hex_prefix(bytes, 3);
        assert(bytes.take(3).take(3) =~= bytes.take(3));
    } else if bytes.len() == 3 {
        let a = bytes[0];
        let b = bytes[1];
        let c = bytes[2];
        assert(hex_digit_value(a) is Some && hex_digit_value(b) is Some && hex_digit_value(c) is Some);
        let x = hex_digit_value(a)->0;
        let y = hex_digit_value(b)->0;
        let z = hex_digit_value(c)->0;
        assert(x < 16 && y < 16 && z < 16);
        let e = Seq::<u8>::empty();
        assert(hex_value(e) == 0);
        lemma_hex_value_push(e, a);
        lemma_hex_value_push(e.push(a), b);
        lemma_hex_value_push(e.push(a).push(b), c);
        assert(bytes.take(3) =~= e.push(a).push(b).push(c));
        lemma_hex_value_push(e.push(a), a);
        lemma_hex_value_push(e.push(a).push(a), b);
        lemma_hex_value_push(e.push(a).push(a).push(b), b);
        lemma_hex_value_push(e.push(a).push(a).push(b).push(b), c);
        lemma_hex_value_push(e.push(a).push(a).push(b).push(b).push(c), c);
        let w = seq![a, a, b, b, c, c];
        assert(w =~= e.push(a).push(a).push(b).push(b).push(c).push(c));
        assert(w.take(6) =~= w);
        assert(all_hex(w)) by {
            assert forall|i: int| 0 <= i < w.len() implies (#[trigger] hex_digit_value(w[i])) is Some by {
                assert(w[i] == a || w[i] == b || w[i] == c);
            }
        }
        lemma_short_widens(x, y, z);
    }
}

proof fn lemma_hex_value_bound(d: Seq<u8>)
    requires
        all_hex(d),
    ensures
        hex_value(d) < pow16(d.len() as int),
    decreases d.len(),
{
    if d.len() > 0 {
        let p = d.drop_last();
        assert(all_hex(p)) by {
            assert forall|i: int| 0 <= i < p.len() implies (#[trigger] hex_digit_value(p[i])) is Some by {
                assert(p[i] == d[i]);
            }
        }
        lemma_hex_value_bound(p);
        assert(hex_digit_value(d[d.len() - 1]) is Some);
        let v = hex_digit_value(d.last())->0;
        assert(v < 16);
        assert(pow16(d.len() as int) == 16 * pow16(p.len() as int));
        assert(hex_value(p) * 16 + v < 16 * pow16(p.len() as int)) by (nonlinear_arith)
            requires
                hex_value(p) < pow16(p.len() as int),
                v < 16,
        ;
    }
}

/// `#rgb` widened to `0xRRGGBB`.
pub open spec fn expand_short_hex(v: nat) -> nat {
    (v / 256 % 16) * 0x110000 + (v / 16 % 16) * 0x1100 + (v % 16) * 0x11
}

/// The colour of a `#` hex colour from the UTF-8 bytes after the `#`: they
/// must be 3, 4, 6 or 8 bytes, all hexadecimal digits; six or eight bytes
/// give their first six as `0xRRGGBB`, three or four their first three
/// (`#rgb` widened). Any other text names no colour.
pub open spec fn hex_color_spec(bytes: Seq<u8>) -> Option<u32> {
    if !all_hex(bytes) {
        None
    } else if bytes.len() == 6 || bytes.len() == 8 {
        Some(hex_value(bytes.take(6)) as u32)
    } else if bytes.len() == 3 || bytes.len() == 4 {
        Some(expand_short_hex(hex_value(bytes.take(3))) as u32)
    } else {
        None
    }
}

pub open spec fn is_channel_sep(c: char) -> bool {
    c == ',' || c == ' ' || c == '/'
}

/// The non-empty runs between `,`, ` ` and `/`, after the run `cur`.
pub open spec fn channel_tokens(s: Seq<char>, cur: Seq<char>) -> Seq<Seq<char>>
    decreases s.len(),
{
    let flushed = if cur.len() > 0 {
        seq![cur]
    } else {
        Seq::empty()
    };
    if s.len() == 0 {
        flushed
    } else if is_channel_sep(s[0]) {
        flushed + channel_tokens(s.drop_first(), Seq::empty())
    } else {
        channel_tokens(s.drop_first(), cur.push(s[0]))
    }
}

/// The text between `rgba(` (or `rgb(`) and a final `)`.
pub open spec fn rgb_inner(t: Seq<char>) -> Option<Seq<char>> {
    let body = if starts_with_spec(t, "rgba("@) {
        Some(t.skip(5))
    } else if starts_with_spec(t, "rgb("@) {
        Some(t.skip(4))
    } else {
        None
    };
    match body {
        Some(b) => if b.len() > 0 && b.last() == ')' {
            Some(b.drop_last())
        } else {
            None
        },
        None => None,
    }
}

pub open spec fn parse_css_color_spec(s: Seq<char>) -> Option<CssColorView> {
    let t = trim_spec(s);
    if t.len() > 0 && t[0] == '#' {
        match hex_color_spec(encode_utf8(t.drop_first())) {
            Some(v) => Some(CssColorView::Hex(v)),
            None => None,
        }
    } else {
        match rgb_inner(t) {
            Some(inner) => {
                let toks = channel_tokens(inner, Seq::empty());
                if toks.len() >= 3 {
                    Some(CssColorView::Channels(toks[0], toks[1], toks[2]))
                } else {
                    None
                }
            },
            None => None,
        }
    }
}

fn hex_digit(b: u8) -> (r: Option<u32>)
    ensures
        match r {
            Some(v) => hex_digit_value(b) == Some(v as nat) && v < 16,
            None => hex_digit_value(b) is None,
        },
{
    if 48 <= b && b <= 57 {
        Some((b - 48) as u32)
    } else if 65 <= b && b <= 70 {
        Some((b - 55) as u32)
    } else if 97 <= b && b <= 102 {
        Some((b - 87) as u32)
    } else {
        None
    }
}

pub open spec fn pow16(k: int) -> nat
    decreases k,
{
    if k <= 0 {
        1
    } else {
        16 * pow16(k - 1)
    }
}

proof fn lemma_pow16_bound(k: int)
    requires
        0 <= k <= 6,
    ensures
        pow16(k) <= 0x1000000,
{
    reveal_with_fuel(pow16, 7);
}

fn all_hex_bytes(bytes: &[u8]) -> (r: bool)
    ensures
        r == all_hex(bytes@),
{
    let mut i: usize = 0;
    while i < bytes.len()
        invariant
            i <= bytes.len(),
            forall|j: int| 0 <= j < i ==> (#[trigger] hex_digit_value(bytes@[j])) is Some,
        decreases bytes.len() - i,
    {
        if hex_digit(bytes[i]).is_none() {
            return false;
        }
        i = i + 1;
    }
    true
}

/// The value of the first `n` bytes, all hexadecimal digits.
fn hex_prefix_value(bytes: &[u8], n: usize) -> (r: u32)
    requires
        n <= bytes.len(),
        n <= 6,
        all_hex(bytes@),
    ensures
        r == hex_value(bytes@.take(n as int)),
{
    let mut acc: u32 = 0;
    let mut i: usize = 0;
    assert(bytes@.take(0) =~= Seq::<u8>::empty());
    while i < n
        invariant
            i <= n <= bytes.len(),
            n <= 6,
            all_hex(bytes@),
            acc == hex_value(bytes@.take(i as int)),
            acc < pow16(i as int),
        decreases n - i,
    {
        assert(hex_digit_value(bytes@[i as int]) is Some);
        match hex_digit(bytes[i]) {
            Some(v) => {
                assert(bytes@.take(i + 1).drop_last() =~= bytes@.take(i as int));
                assert(pow16(i + 1) == pow16(i as int) * 16);
                assert(acc * 16 + v < pow16(i + 1)) by (nonlinear_arith)
                    requires
                        acc < pow16(i as int),
                        v < 16,
                        pow16(i + 1) == pow16(i as int) * 16,
                ;
                proof {
                    lemma_pow16_bound(i + 1);
                }
                acc = acc * 16 + v;
            },
            None => {
                return 0;
            },
        }
        i = i + 1;
    }
    acc
}

pub open spec fn tokens_view(v: Seq<Vec<char>>) -> Seq<Seq<char>> {
    v.map_values(|t: Vec<char>| t@)
}

fn channel_split(s: &Vec<char>) -> (r: Vec<Vec<char>>)
    ensures
        tokens_view(r@) == channel_tokens(s@, Seq::empty()),
{
    let mut out: Vec<Vec<char>> = Vec::new();
    let mut cur: Vec<char> = Vec::new();
    let mut i: usize = 0;
    assert(s@.skip(0) =~= s@);
    assert(tokens_view(out@) =~= Seq::<Seq<char>>::empty());
    while i < s.len()
        invariant
            i <= s.len(),
            tokens_view(out@) + channel_tokens(s@.skip(i as int), cur@) == channel_tokens(s@, Seq::empty()),
        decreases s.len() - i,
    {
        let c = s[i];
        assert(s@.skip(i as int).drop_first() =~= s@.skip(i + 1));
        assert(s@.skip(i as int)[0] == c);
        if c == ',' || c == ' ' || c == '/' {
            if cur.len() > 0 {
                let ghost before = tokens_view(out@);
                let ghost cur_v = cur@;
                out.push(cur);
                assert(tokens_view(out@) =~= before.push(cur_v));
                assert(tokens_view(out@) + channel_tokens(s@.skip(i + 1), Seq::empty()) =~= before + (seq![cur_v] + channel_tokens(s@.skip(i + 1), Seq::empty())));
            } else {
                assert(channel_tokens(s@.skip(i as int), cur@) =~= channel_tokens(s@.skip(i + 1), Seq::empty()));
            }
            cur = Vec::new();
        } else {
            cur.push(c);
        }
        i = i + 1;
    }
    assert(s@.skip(i as int) =~= Seq::<char>::empty());
    if cur.len() > 0 {
        let ghost before = tokens_view(out@);
        let ghost cur_v = cur@;
        out.push(cur);
        assert(tokens_view(out@) =~= before.push(cur_v));
    } else {
        assert(tokens_view(out@) + Seq::<Seq<char>>::empty() =~= tokens_view(out@));
    }
    out
}

/// Reads a CSS colour: `#rrggbb`, `#rrggbbaa`, `#rgb`, `#rgba` to a value,
/// `rgb(r, g, b)` / `rgba(...)` to the text of its first three channels
/// (their numeric reading is floating point and is done by the caller).
pub fn parse_css_color(s: &str) -> (r: Option<CssColor>)
    ensures
        match r {
            Some(c) => parse_css_color_spec(s@) == Some(c@),
            None => parse_css_color_spec(s@) is None,
        },
{
    let t = trim_chars(&chars_of(s));
    if t.len() > 0 && t[0] == '#' {
        let hex = string_of(&sub_chars(&t, 1, t.len()));
        assert(hex@ =~= t@.drop_first());
        let bytes = hex.as_str().as_bytes();
        let n = bytes.len();
        if !all_hex_bytes(bytes) {
            return None;
        }
        let v = if n == 6 || n == 8 {
            hex_prefix_value(bytes, 6)
        } else if n == 3 || n == 4 {
            let v = hex_prefix_value(bytes, 3);
            (v / 256 % 16) * 0x110000 + (v / 16 % 16) * 0x1100 + (v % 16) * 0x11
        } else {
            return None;
        };
        return Some(CssColor::Hex(v));
    }
    proof {
        reveal_strlit("rgba(");
        reveal_strlit("rgb(");
    }
    let inner = if starts_with(&t, &chars_of("rgba(")) {
        sub_chars(&t, 5, t.len())
    } else if starts_with(&t, &chars_of("rgb(")) {
        sub_chars(&t, 4, t.len())
    } else {
        return None;
    };
    if inner.len() == 0 || inner[inner.len() - 1] != ')' {
        return None;
    }
    let inner = sub_chars(&inner, 0, inner.len() - 1);
    let toks = channel_split(&inner);
    if toks.len() >= 3 {
        assert(tokens_view(toks@)[0] == toks@[0]@);
        assert(tokens_view(toks@)[1] == toks@[1]@);
        assert(tokens_view(toks@)[2] == toks@[2]@);
        Some(CssColor::Channels(string_of(&toks[0]), string_of(&toks[1]), string_of(&toks[2])))
    } else {
        None
    }
}

/// Three channels in 0..=255 packed as `0xRRGGBB`.
pub fn pack_rgb(r: u32, g: u32, b: u32) -> (c: u32)
    requires
        r <= 255,
        g <= 255,
        b <= 255,
    ensures
        c == r * 65536 + g * 256 + b,
{
    r * 65536 + g * 256 + b
}

/// The red, green and blue bytes of `0xRRGGBB` (higher bits ignored).
pub fn rgb(c: u32) -> (r: (u8, u8, u8))
    ensures
        r.0 == c / 65536 % 256,
        r.1 == c / 256 % 256,
        r.2 == c % 256,
{
    ((c / 65536 % 256) as u8, (c / 256 % 256) as u8, (c % 256) as u8)
}

/// The colours for the taskbar and tray icon. A light plate reads as a blank
/// tile at 16 to 32 pixels, so a light background gives way to the accent as
/// the plate (with a white glyph), or to Haven's own pair when the accent is
/// light too. `bg_light` and `fg_light` say whether each colour's relative
/// luminance is above 0.72.
pub fn taskbar_colors(bg: u32, fg: u32, bg_light: bool, fg_light: bool) -> (r: (u32, u32))
    ensures
        r == (if !bg_light {
            (bg, fg)
        } else if fg_light {
            (0x191b28u32, 0x7c5cfcu32)
        } else {
            (fg, 0xffffffu32)
        }),
{
    if !bg_light {
        (bg, fg)
    } else if fg_light {
        (0x191b28, 0x7c5cfc)
    } else {
        (fg, 0xffffff)
    }
}

/// The colour pair for a page: a known theme id's pair, else the page's
/// live background and accent when both were read.
pub fn pick_theme_colors(theme: Option<&str>, bg: Option<u32>, accent: Option<u32>) -> (r: Option<(u32, u32)>)
    ensures
        r == (match theme {
            Some(t) => match lookup_spec(t@) {
                Some(p) => Some(p),
                None => match (bg, accent) {
                    (Some(b), Some(f)) => Some((b, f)),
                    _ => None,
                },
            },
            None => match (bg, accent) {
                (Some(b), Some(f)) => Some((b, f)),
                _ => None,
            },
        }),
{
    let from_table = match theme {
        Some(t) => lookup(t),
        None => None,
    };
    match from_table {
        Some(p) => Some(p),
        None => match (bg, accent) {
            (Some(b), Some(f)) => Some((b, f)),
            _ => None,
        },
    }
}

/// The colours remembered from the last page (the low 32 bits of each
/// stored number), or Haven's own pair when either is missing.
pub fn stored_colors(bg: Option<u64>, fg: Option<u64>) -> (r: (u32, u32))
    ensures
        r == (match (bg, fg) {
            (Some(b), Some(f)) => ((b % 0x1_0000_0000) as u32, (f % 0x1_0000_0000) as u32),
            _ => (0x191b28u32, 0x7c5cfcu32),
        }),
{
    match (bg, fg) {
        (Some(b), Some(f)) => ((b % 0x1_0000_0000) as u32, (f % 0x1_0000_0000) as u32),
        _ => (0x191b28, 0x7c5cfc),
    }
}

/// A `0xRRGGBB` colour as a Windows `COLORREF` (`0x00BBGGRR`).
pub fn colorref(c: u32) -> (r: u32)
    ensures
        r == (c % 256) * 65536 + (c / 256 % 256) * 256 + (c / 65536 % 256),
{
    let r = ((c & 0xff) << 16) | (c & 0xff00) | ((c >> 16) & 0xff);
    assert(r == (c % 256) * 65536 + (c / 256 % 256) * 256 + (c / 65536 % 256)) by (bit_vector)
        requires
            r == ((c & 0xff) << 16) | (c & 0xff00) | ((c >> 16) & 0xff),
    ;
    r
}

} // verus!
