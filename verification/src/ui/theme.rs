//! Reading the terminal's answers to colour queries (OSC 4, 10 and 11).
//!
//! The terminal answers each query with `ESC ] <payload>` closed by ST
//! (`ESC \`) or BEL; payloads look like `4;<slot>;rgb:rrrr/gggg/bbbb`,
//! `10;rgb:...` (text colour) or `11;rgb:...` (background).
use vstd::prelude::*;
use vstd::utf8::{is_continuation_byte, valid_utf8};

verus! {

/// A colour as three 8-bit channels.
pub type Rgb = (u8, u8, u8);

/// The colours the terminal reported: palette slots 1, 2, 3, 5 and 8, text and background.
#[derive(Debug, Clone, Copy, PartialEq, Eq, Default)]
pub struct Palette {
    pub color1: Option<Rgb>,
    pub color2: Option<Rgb>,
    pub color3: Option<Rgb>,
    pub color5: Option<Rgb>,
    pub color8: Option<Rgb>,
    pub fg: Option<Rgb>,
    pub bg: Option<Rgb>,
}

/// The palette with nothing reported.
pub open spec fn empty_palette() -> Palette {
    Palette { color1: None, color2: None, color3: None, color5: None, color8: None, fg: None, bg: None }
}

// ---------- numbers ----------

/// The value of a byte as a digit in `radix` (letters count from 10), if it is one.
pub open spec fn digit_value(b: u8, radix: int) -> Option<int> {
    let v: int = if 0x30 <= b <= 0x39 {
        b - 0x30
    } else if 0x61 <= b <= 0x7a {
        b - 0x61 + 10
    } else if 0x41 <= b <= 0x5a {
        b - 0x41 + 10
    } else {
        radix
    };
    if v < radix {
        Some(v)
    } else {
        None
    }
}

/// Every byte is a digit in `radix`.
pub open spec fn all_digits(s: Seq<u8>, radix: int) -> bool {
    forall|i: int| 0 <= i < s.len() ==> (#[trigger] digit_value(s[i], radix)) is Some
}

/// The number that the digits spell, most significant first.
pub open spec fn digits_value(s: Seq<u8>, radix: int) -> int
    decreases s.len(),
{
    if s.len() == 0 {
        0
    } else {
        digits_value(s.drop_last(), radix) * radix + digit_value(s.last(), radix).unwrap()
    }
}

/// What `u8::from_str_radix` gives: an optional `+`, then at least one digit,
/// and a value that fits in a byte.
pub open spec fn parse_u8_radix(s: Seq<u8>, radix: int) -> Option<u8> {
    let digits = if s.len() > 0 && s[0] == 0x2b {
        s.drop_first()
    } else {
        s
    };
    if digits.len() == 0 || !all_digits(digits, radix) || digits_value(digits, radix) > 255 {
        None
    } else {
        Some(digits_value(digits, radix) as u8)
    }
}

proof fn lemma_digits_value_step(s: Seq<u8>, i: int, radix: int)
    requires
        0 <= i < s.len(),
    ensures
        digits_value(s.subrange(0, i + 1), radix) == digits_value(s.subrange(0, i), radix) * radix
            + digit_value(s[i], radix).unwrap(),
{
    assert(s.subrange(0, i + 1).drop_last() == s.subrange(0, i));
}

proof fn lemma_digits_value_nonneg(s: Seq<u8>, radix: int)
    requires
        all_digits(s, radix),
        radix > 0,
    ensures
        digits_value(s, radix) >= 0,
    decreases s.len(),
{
    if s.len() > 0 {
        assert(all_digits(s.drop_last(), radix)) by {
            assert forall|i: int| 0 <= i < s.drop_last().len() implies (#[trigger] digit_value(
                s.drop_last()[i],
                radix,
            )) is Some by {
                assert(s.drop_last()[i] == s[i]);
            }
        }
        lemma_digits_value_nonneg(s.drop_last(), radix);
        assert(digit_value(s.last(), radix) is Some);
        assert(digits_value(s.drop_last(), radix) * radix >= 0) by (nonlinear_arith)
            requires
                digits_value(s.drop_last(), radix) >= 0,
                radix > 0,
        ;
    }
}

proof fn lemma_digits_value_monotone(s: Seq<u8>, i: int, radix: int)
    requires
        0 <= i <= s.len(),
        all_digits(s, radix),
        radix > 1,
    ensures
        digits_value(s.subrange(0, i), radix) <= digits_value(s, radix),
    decreases s.len() - i,
{
    if i < s.len() {
        lemma_digits_value_monotone(s, i + 1, radix);
        lemma_digits_value_step(s, i, radix);
        let sub = s.subrange(0, i);
        assert(all_digits(sub, radix)) by {
            assert forall|k: int| 0 <= k < sub.len() implies (#[trigger] digit_value(sub[k], radix))
                is Some by {
                assert(sub[k] == s[k]);
            }
        }
        lemma_digits_value_nonneg(sub, radix);
        let v = digits_value(sub, radix);
        let d = digit_value(s[i], radix).unwrap();
        assert(d >= 0);
        assert(v <= v * radix + d) by (nonlinear_arith)
            requires
                v >= 0,
                radix > 1,
                d >= 0,
        ;
    } else {
        assert(s.subrange(0, i) == s);
    }
}

/// `u8::from_str_radix(s, radix)` for radix 10 or 16, on the bytes of the text.
pub fn parse_u8(s: &[u8], radix: u32) -> (r: Option<u8>)
    requires
        radix == 10 || radix == 16,
    ensures
        r == parse_u8_radix(s@, radix as int),
{
    let mut start: usize = 0;
    if s.len() > 0 && s[0] == 0x2b {
        start = 1;
    }
    let ghost digits = if s@.len() > 0 && s@[0] == 0x2b {
        s@.drop_first()
    } else {
        s@
    };
    assert(digits == s@.subrange(start as int, s@.len() as int));
    if start == s.len() {
        return None;
    }
    let mut value: u32 = 0;
    let mut i: usize = start;
    while i < s.len()
        invariant
            start <= i <= s@.len(),
            start < s@.len(),
            digits == (if s@.len() > 0 && s@[0] == 0x2b {
                s@.drop_first()
            } else {
                s@
            }),
            digits == s@.subrange(start as int, s@.len() as int),
            radix == 10 || radix == 16,
            all_digits(digits.subrange(0, i - start), radix as int),
            value as int == digits_value(digits.subrange(0, i - start), radix as int),
            value <= 255,
        decreases s@.len() - i,
    {
        let b = s[i];
        let d: u32 = if 0x30 <= b && b <= 0x39 {
            (b - 0x30) as u32
        } else if 0x61 <= b && b <= 0x7a {
            (b - 0x61 + 10) as u32
        } else if 0x41 <= b && b <= 0x5a {
            (b - 0x41 + 10) as u32
        } else {
            radix
        };
        assert(digits[i - start] == b);
        if d >= radix {
            assert(!all_digits(digits, radix as int)) by {
                assert(digit_value(digits[i - start], radix as int) is None);
            }
            return None;
        }
        proof {
            lemma_digits_value_step(digits, i - start, radix as int);
            assert(all_digits(digits.subrange(0, i - start + 1), radix as int)) by {
                let sub = digits.subrange(0, i - start + 1);
                assert forall|k: int| 0 <= k < sub.len() implies (#[trigger] digit_value(
                    sub[k],
                    radix as int,
                )) is Some by {
                    if k < i - start {
                        assert(sub[k] == digits.subrange(0, i - start)[k]);
                    }
                }
            }
        }
        let next = value * radix + d;
        if next > 255 {
            proof {
                if all_digits(digits, radix as int) {
                    lemma_digits_value_monotone(digits, i - start + 1, radix as int);
                }
            }
            return None;
        }
        value = next;
        i = i + 1;
    }
    assert(digits.subrange(0, i - start) == digits);
    Some(value as u8)
}

// ---------- splitting ----------

/// The index of the first byte `b` in `s`, if any.
pub open spec fn find_byte(s: Seq<u8>, b: u8) -> Option<int>
    decreases s.len(),
{
    if s.len() == 0 {
        None
    } else if s[0] == b {
        Some(0)
    } else {
        match find_byte(s.drop_first(), b) {
            Some(k) => Some(k + 1),
            None => None,
        }
    }
}

/// The part of `s` before the first `b` (all of `s` without one).
pub open spec fn before_first(s: Seq<u8>, b: u8) -> Seq<u8> {
    match find_byte(s, b) {
        Some(k) => s.subrange(0, k),
        None => s,
    }
}

/// The part of `s` after the first `b`, if there is one.
pub open spec fn after_first(s: Seq<u8>, b: u8) -> Option<Seq<u8>> {
    match find_byte(s, b) {
        Some(k) => Some(s.subrange(k + 1, s.len() as int)),
        None => None,
    }
}

proof fn lemma_find_byte(s: Seq<u8>, b: u8, k: int)
    requires
        0 <= k <= s.len(),
        forall|j: int| 0 <= j < k ==> s[j] != b,
    ensures
        k < s.len() && s[k] == b ==> find_byte(s, b) == Some(k),
        k == s.len() ==> find_byte(s, b) is None,
        find_byte(s, b) matches Some(x) ==> 0 <= x < s.len() && s[x] == b,
    decreases s.len(),
{
    if s.len() > 0 {
        if s[0] != b {
            lemma_find_byte(s.drop_first(), b, if k > 0 {
                k - 1
            } else {
                0
            });
            if k > 0 {
                assert forall|j: int| 0 <= j < k - 1 implies s.drop_first()[j] != b by {
                    assert(s.drop_first()[j] == s[j + 1]);
                }
            }
        }
    }
}

proof fn lemma_find_byte_ok(s: Seq<u8>, b: u8)
    ensures
        find_byte(s, b) matches Some(x) ==> 0 <= x < s.len() && s[x] == b,
    decreases s.len(),
{
    if s.len() > 0 && s[0] != b {
        lemma_find_byte_ok(s.drop_first(), b);
    }
}

/// The index of the first byte `b` in `s`, if any.
pub fn find_byte_in(s: &[u8], b: u8) -> (r: Option<usize>)
    ensures
        r matches Some(k) ==> k < s@.len() && s@[k as int] == b,
        match find_byte(s@, b) {
            Some(k) => r == Some(k as usize),
            None => r is None,
        },
{
    let mut k: usize = 0;
    while k < s.len()
        invariant
            k <= s@.len(),
            forall|j: int| 0 <= j < k ==> s@[j] != b,
        decreases s@.len() - k,
    {
        if s[k] == b {
            proof {
                lemma_find_byte(s@, b, k as int);
                lemma_find_byte_ok(s@, b);
            }
            return Some(k);
        }
        k = k + 1;
    }
    proof {
        lemma_find_byte(s@, b, k as int);
    }
    None
}

fn split_first<'a>(s: &'a [u8], b: u8) -> (r: (&'a [u8], Option<&'a [u8]>))
    ensures
        r.0@ == before_first(s@, b),
        match after_first(s@, b) {
            Some(rest) => r.1 is Some && r.1.unwrap()@ == rest,
            None => r.1 is None,
        },
{
    proof {
        lemma_find_byte_ok(s@, b);
    }
    let n = s.len();
    match find_byte_in(s, b) {
        Some(k) => (&s[0..k], Some(&s[k + 1..n])),
        None => (s, None),
    }
}

// ---------- colours ----------

/// `&comp[..comp.len().min(2)]` stays on a character boundary.
pub open spec fn comp_slice_ok(comp: Seq<u8>) -> bool {
    !(comp.len() > 2 && is_continuation_byte(comp[2]))
}

/// A channel of `rgb:`: the first two hex digits of the component.
pub open spec fn hex_comp(comp: Seq<u8>) -> Option<u8> {
    let n = if comp.len() < 2 {
        comp.len() as int
    } else {
        2
    };
    parse_u8_radix(comp.subrange(0, n), 16)
}

/// The bytes of `rgb:`.
pub open spec fn rgb_tag() -> Seq<u8> {
    seq![0x72u8, 0x67u8, 0x62u8, 0x3au8]
}

/// The colour of an `rgb:r/g/b` text: three `/`-separated components, more are ignored.
pub open spec fn rgb_of(s: Seq<u8>) -> Option<Rgb> {
    if s.len() < 4 || s.subrange(0, 4) != rgb_tag() {
        None
    } else {
        let hex = s.subrange(4, s.len() as int);
        match hex_comp(before_first(hex, 0x2f)) {
            None => None,
            Some(r) => match after_first(hex, 0x2f) {
                None => None,
                Some(h1) => match hex_comp(before_first(h1, 0x2f)) {
                    None => None,
                    Some(g) => match after_first(h1, 0x2f) {
                        None => None,
                        Some(h2) => match hex_comp(before_first(h2, 0x2f)) {
                            None => None,
                            Some(b) => Some((r, g, b)),
                        },
                    },
                },
            },
        }
    }
}

/// Reading `s` as a colour slices every component it reaches on a character boundary.
pub open spec fn rgb_ok(s: Seq<u8>) -> bool {
    if s.len() < 4 || s.subrange(0, 4) != rgb_tag() {
        true
    } else {
        let hex = s.subrange(4, s.len() as int);
        &&& comp_slice_ok(before_first(hex, 0x2f))
        &&& (hex_comp(before_first(hex, 0x2f)) is Some && after_first(hex, 0x2f) is Some) ==> {
            let h1 = after_first(hex, 0x2f).unwrap();
            &&& comp_slice_ok(before_first(h1, 0x2f))
            &&& (hex_comp(before_first(h1, 0x2f)) is Some && after_first(h1, 0x2f) is Some)
                ==> comp_slice_ok(before_first(after_first(h1, 0x2f).unwrap(), 0x2f))
        }
    }
}

/// The first two hex digits of a component, as a byte.
pub fn parse_hex_comp(comp: &[u8]) -> (r: Option<u8>)
    requires
        comp_slice_ok(comp@),
    ensures
        r == hex_comp(comp@),
{
    let n = if comp.len() < 2 {
        comp.len()
    } else {
        2
    };
    parse_u8(&comp[0..n], 16)
}

/// The colour of an `rgb:r/g/b` text.
pub fn parse_rgb(s: &[u8]) -> (r: Option<Rgb>)
    requires
        rgb_ok(s@),
    ensures
        r == rgb_of(s@),
{
    if s.len() < 4 || !(s[0] == 0x72 && s[1] == 0x67 && s[2] == 0x62 && s[3] == 0x3a) {
        proof {
            if s@.len() >= 4 && s@.subrange(0, 4) == rgb_tag() {
                assert(s@.subrange(0, 4)[0] == s@[0]);
                assert(s@.subrange(0, 4)[1] == s@[1]);
                assert(s@.subrange(0, 4)[2] == s@[2]);
                assert(s@.subrange(0, 4)[3] == s@[3]);
            }
        }
        return None;
    }
    assert(s@.subrange(0, 4) == rgb_tag());
    let hex = &s[4..s.len()];
    let (p0, rest0) = split_first(hex, 0x2f);
    let r = match parse_hex_comp(p0) {
        Some(v) => v,
        None => return None,
    };
    let h1 = match rest0 {
        Some(h) => h,
        None => return None,
    };
    let (p1, rest1) = split_first(h1, 0x2f);
    let g = match parse_hex_comp(p1) {
        Some(v) => v,
        None => return None,
    };
    let h2 = match rest1 {
        Some(h) => h,
        None => return None,
    };
    let (p2, _) = split_first(h2, 0x2f);
    let b = match parse_hex_comp(p2) {
        Some(v) => v,
        None => return None,
    };
    Some((r, g, b))
}


// ---------- payloads ----------

/// The bytes of a sequence that may be absent, empty when absent.
pub open spec fn or_empty(s: Option<Seq<u8>>) -> Seq<u8> {
    match s {
        Some(t) => t,
        None => Seq::empty(),
    }
}

/// The palette after one answer payload: `10;<rgb>` sets the text colour,
/// `11;<rgb>` the background, `4;<slot>;<rgb>` palette slot 1, 2, 3, 5 or 8
/// (a colour that does not read sets the slot to nothing). A payload that is
/// not UTF-8, another code, another slot or a slot that is not a number
/// leaves the palette as it is.
pub open spec fn with_payload(pal: Palette, p: Seq<u8>) -> Palette {
    if !valid_utf8(p) {
        pal
    } else {
        let code = before_first(p, 0x3b);
        let rest = or_empty(after_first(p, 0x3b));
        if code == seq![0x31u8, 0x30u8] {
            Palette { fg: rgb_of(rest), ..pal }
        } else if code == seq![0x31u8, 0x31u8] {
            Palette { bg: rgb_of(rest), ..pal }
        } else if code == seq![0x34u8] {
            match parse_u8_radix(before_first(rest, 0x3b), 10) {
                None => pal,
                Some(idx) => {
                    let c = rgb_of(or_empty(after_first(rest, 0x3b)));
                    if idx == 1 {
                        Palette { color1: c, ..pal }
                    } else if idx == 2 {
                        Palette { color2: c, ..pal }
                    } else if idx == 3 {
                        Palette { color3: c, ..pal }
                    } else if idx == 5 {
                        Palette { color5: c, ..pal }
                    } else if idx == 8 {
                        Palette { color8: c, ..pal }
                    } else {
                        pal
                    }
                },
            }
        } else {
            pal
        }
    }
}

/// An answer `4;<slot>;<colour>` for a one-digit slot sets exactly that
/// palette slot, when it is one of 1, 2, 3, 5 and 8, to the colour read from
/// `<colour>`, and leaves every other part of the palette as it was; any
/// other slot leaves the palette as it was.
pub proof fn lemma_slot_answer_sets_that_slot(pal: Palette, slot: u8, colour: Seq<u8>)
    requires
        slot <= 9,
        valid_utf8(seq![0x34u8, 0x3bu8, (0x30 + slot) as u8, 0x3bu8] + colour),
    ensures
        ({
            let q = with_payload(pal, seq![0x34u8, 0x3bu8, (0x30 + slot) as u8, 0x3bu8] + colour);
            &&& slot == 1 ==> q == Palette { color1: rgb_of(colour), ..pal }
            &&& slot == 2 ==> q == Palette { color2: rgb_of(colour), ..pal }
            &&& slot == 3 ==> q == Palette { color3: rgb_of(colour), ..pal }
            &&& slot == 5 ==> q == Palette { color5: rgb_of(colour), ..pal }
            &&& slot == 8 ==> q == Palette { color8: rgb_of(colour), ..pal }
            &&& !(slot == 1 || slot == 2 || slot == 3 || slot == 5 || slot == 8) ==> q == pal
        }),
{
    let d = (0x30 + slot) as u8;
    let p = seq![0x34u8, 0x3bu8, d, 0x3bu8] + colour;
    assert(p[0] == 0x34u8 && p[1] == 0x3bu8 && p[2] == d && p[3] == 0x3bu8);
    lemma_find_byte(p, 0x3b, 1);
    assert(before_first(p, 0x3b) =~= seq![0x34u8]);
    let rest = p.subrange(2, p.len() as int);
    assert(rest =~= seq![d, 0x3bu8] + colour);
    assert(or_empty(after_first(p, 0x3b)) == rest);
    assert(rest[0] == d && rest[1] == 0x3bu8);
    lemma_find_byte(rest, 0x3b, 1);
    let digits = seq![d];
    assert(before_first(rest, 0x3b) =~= digits);
    assert(or_empty(after_first(rest, 0x3b)) =~= colour);
    assert(digit_value(d, 10) == Some(slot as int));
    assert(all_digits(digits, 10));
    assert(digits.drop_last() =~= Seq::<u8>::empty());
    assert(digits_value(digits, 10) == digits_value(digits.drop_last(), 10) * 10 + slot);
    assert(digits_value(digits, 10) == slot);
    assert(parse_u8_radix(digits, 10) == Some(slot));
    assert(seq![0x34u8] != seq![0x31u8, 0x30u8]);
    assert(seq![0x34u8] != seq![0x31u8, 0x31u8]);
}

/// An answer `10;<colour>` sets the text colour and `11;<colour>` the
/// background to the colour read from `<colour>`; the rest of the palette
/// stays as it was.
pub proof fn lemma_fg_bg_answers_set_their_colour(pal: Palette, code: u8, colour: Seq<u8>)
    requires
        code == 0x30 || code == 0x31,
        valid_utf8(seq![0x31u8, code, 0x3bu8] + colour),
    ensures
        code == 0x30 ==> with_payload(pal, seq![0x31u8, code, 0x3bu8] + colour) == (Palette {
            fg: rgb_of(colour),
            ..pal
        }),
        code == 0x31 ==> with_payload(pal, seq![0x31u8, code, 0x3bu8] + colour) == (Palette {
            bg: rgb_of(colour),
            ..pal
        }),
{
    let p = seq![0x31u8, code, 0x3bu8] + colour;
    assert(p[0] == 0x31u8 && p[1] == code && p[2] == 0x3bu8);
    lemma_find_byte(p, 0x3b, 2);
    assert(before_first(p, 0x3b) =~= seq![0x31u8, code]);
    assert(or_empty(after_first(p, 0x3b)) =~= colour);
}

/// Reading the payload never slices a colour component off a character boundary.
pub open spec fn payload_ok(p: Seq<u8>) -> bool {
    valid_utf8(p) ==> {
        let code = before_first(p, 0x3b);
        let rest = or_empty(after_first(p, 0x3b));
        &&& (code == seq![0x31u8, 0x30u8] || code == seq![0x31u8, 0x31u8]) ==> rgb_ok(rest)
        &&& (code == seq![0x34u8] && parse_u8_radix(before_first(rest, 0x3b), 10) is Some)
            ==> rgb_ok(or_empty(after_first(rest, 0x3b)))
    }
}

/// Whether the bytes are valid UTF-8: calls `std::str::from_utf8` and
/// reports whether it succeeded. Claimed: it succeeds exactly on the byte
/// sequences that vstd's `valid_utf8` accepts (well-formed UTF-8 as the
/// Unicode standard defines it: no overlong forms, no surrogates, nothing
/// above U+10FFFF).
#[verifier::external_body]
fn is_utf8(bytes: &[u8]) -> (r: bool)
    ensures
        r == valid_utf8(bytes@),
{
    std::str::from_utf8(bytes).is_ok()
}

fn bytes_eq(a: &[u8], b: &[u8]) -> (r: bool)
    ensures
        r == (a@ == b@),
{
    if a.len() != b.len() {
        return false;
    }
    let mut i: usize = 0;
    while i < a.len()
        invariant
            a@.len() == b@.len(),
            i <= a@.len(),
            forall|k: int| 0 <= k < i ==> a@[k] == b@[k],
        decreases a@.len() - i,
    {
        if a[i] != b[i] {
            return false;
        }
        i = i + 1;
    }
    assert(a@ =~= b@);
    true
}

/// Applies one answer payload to the palette, as [`with_payload`] says.
pub fn parse_payload(payload: &[u8], palette: &mut Palette)
    requires
        payload_ok(payload@),
    ensures
        *final(palette) == with_payload(*old(palette), payload@),
{
    if !is_utf8(payload) {
        return;
    }
    let (code, after) = split_first(payload, 0x3b);
    let rest: &[u8] = match after {
        Some(r) => r,
        None => &[],
    };
    assert(rest@ == or_empty(after_first(payload@, 0x3b)));
    let ten: &[u8] = &[0x31u8, 0x30u8];
    let eleven: &[u8] = &[0x31u8, 0x31u8];
    let four: &[u8] = &[0x34u8];
    assert(ten@ =~= seq![0x31u8, 0x30u8]);
    assert(eleven@ =~= seq![0x31u8, 0x31u8]);
    assert(four@ =~= seq![0x34u8]);
    if bytes_eq(code, ten) {
        assert(code@ == seq![0x31u8, 0x30u8]);
        palette.fg = parse_rgb(rest);
        assert(*palette == with_payload(*old(palette), payload@));
    } else if bytes_eq(code, eleven) {
        assert(code@ == seq![0x31u8, 0x31u8]);
        palette.bg = parse_rgb(rest);
        assert(*palette == with_payload(*old(palette), payload@));
    } else if bytes_eq(code, four) {
        assert(code@ == seq![0x34u8]);
        let (idx_text, color_part) = split_first(rest, 0x3b);
        let idx = match parse_u8(idx_text, 10) {
            Some(i) => i,
            None => return,
        };
        let color_text: &[u8] = match color_part {
            Some(c) => c,
            None => &[],
        };
        assert(color_text@ == or_empty(after_first(rest@, 0x3b)));
        assert(parse_u8_radix(before_first(rest@, 0x3b), 10) == Some(idx));
        let color = parse_rgb(color_text);
        let ghost pal0 = *palette;
        if idx == 1 {
            palette.color1 = color;
        } else if idx == 2 {
            palette.color2 = color;
        } else if idx == 3 {
            palette.color3 = color;
        } else if idx == 5 {
            palette.color5 = color;
        } else if idx == 8 {
            palette.color8 = color;
        }
        assert(*palette == with_payload(*old(palette), payload@));
    } else {
        assert(code@ != seq![0x31u8, 0x30u8]);
        assert(code@ != seq![0x31u8, 0x31u8]);
        assert(code@ != seq![0x34u8]);
    }
}

// ---------- framing ----------

/// The first place at or after `i` where `needle` stands in `haystack`.
pub open spec fn find_pattern_from(haystack: Seq<u8>, needle: Seq<u8>, i: int) -> Option<int>
    decreases haystack.len() - i,
{
    if i < 0 || i >= haystack.len() || i + needle.len() > haystack.len() {
        None
    } else if haystack.subrange(i, i + needle.len() as int) == needle {
        Some(i)
    } else {
        find_pattern_from(haystack, needle, i + 1)
    }
}

proof fn lemma_find_pattern_bounds(haystack: Seq<u8>, needle: Seq<u8>, i: int)
    ensures
        find_pattern_from(haystack, needle, i) matches Some(k) ==> i <= k && 0 <= k && k
            + needle.len() <= haystack.len(),
    decreases haystack.len() - i,
{
    if !(i < 0 || i >= haystack.len() || i + needle.len() > haystack.len()) && haystack.subrange(
        i,
        i + needle.len() as int,
    ) != needle {
        lemma_find_pattern_bounds(haystack, needle, i + 1);
    }
}

/// The first position where `needle` stands in `haystack`.
pub fn find_pattern(haystack: &[u8], needle: &[u8]) -> (r: Option<usize>)
    requires
        needle@.len() > 0,
    ensures
        match find_pattern_from(haystack@, needle@, 0) {
            Some(k) => r == Some(k as usize),
            None => r is None,
        },
        r matches Some(k) ==> k + needle@.len() <= haystack@.len(),
{
    proof {
        lemma_find_pattern_bounds(haystack@, needle@, 0);
    }
    let n = haystack.len();
    let m = needle.len();
    if n < m {
        return None;
    }
    let mut k: usize = 0;
    while k <= n - m
        invariant
            m == needle@.len(),
            n == haystack@.len(),
            0 < m <= n,
            k <= n - m + 1,
            find_pattern_from(haystack@, needle@, k as int) == find_pattern_from(
                haystack@,
                needle@,
                0,
            ),
        decreases n - m + 1 - k,
    {
        let w = &haystack[k..k + m];
        if bytes_eq(w, needle) {
            return Some(k);
        }
        k = k + 1;
    }
    None
}

/// Where a payload ends when scanning from `i`: at BEL (one byte consumed),
/// at ST `ESC \` (two consumed), or before the start of another sequence
/// (`ESC ]` or `ESC [`, nothing consumed); else at the end of the bytes.
/// The pair is (payload length, bytes consumed).
pub open spec fn response_end_from(rest: Seq<u8>, i: int) -> (int, int)
    decreases rest.len() - i,
{
    if i < 0 || i >= rest.len() {
        (rest.len() as int, rest.len() as int)
    } else if rest[i] == 0x07 {
        (i, i + 1)
    } else if rest[i] == 0x1b && i + 1 < rest.len() && rest[i + 1] == 0x5c {
        (i, i + 2)
    } else if rest[i] == 0x1b && i + 1 < rest.len() && (rest[i + 1] == 0x5d || rest[i + 1]
        == 0x5b) {
        (i, i)
    } else {
        response_end_from(rest, i + 1)
    }
}

proof fn lemma_response_end_bounds(rest: Seq<u8>, i: int)
    requires
        0 <= i,
    ensures
        0 <= response_end_from(rest, i).0 <= response_end_from(rest, i).1 <= rest.len(),
    decreases rest.len() - i,
{
    if i < rest.len() && !(rest[i] == 0x07) && !(rest[i] == 0x1b && i + 1 < rest.len() && (rest[i
        + 1] == 0x5c || rest[i + 1] == 0x5d || rest[i + 1] == 0x5b)) {
        lemma_response_end_bounds(rest, i + 1);
    }
}

/// The end of the payload at the front of `rest` and how many bytes it takes.
pub fn response_end(rest: &[u8]) -> (r: (usize, usize))
    ensures
        r.0 as int == response_end_from(rest@, 0).0,
        r.1 as int == response_end_from(rest@, 0).1,
        r.0 <= r.1 <= rest@.len(),
{
    proof {
        lemma_response_end_bounds(rest@, 0);
    }
    let n = rest.len();
    let mut i: usize = 0;
    while i < n
        invariant
            n == rest@.len(),
            i <= n,
            response_end_from(rest@, i as int) == response_end_from(rest@, 0),
        decreases n - i,
    {
        let b = rest[i];
        if b == 0x07 {
            return (i, i + 1);
        }
        if b == 0x1b && i + 1 < n && rest[i + 1] == 0x5c {
            return (i, i + 2);
        }
        if b == 0x1b && i + 1 < n && (rest[i + 1] == 0x5d || rest[i + 1] == 0x5b) {
            return (i, i);
        }
        i = i + 1;
    }
    (n, n)
}

/// The start of an answer: `ESC ]`.
pub open spec fn osc_start() -> Seq<u8> {
    seq![0x1bu8, 0x5du8]
}

/// The palette that a burst of answers gives, applied in order to `pal`.
pub open spec fn palette_from(rest: Seq<u8>, pal: Palette) -> Palette
    decreases rest.len(),
{
    match find_pattern_from(rest, osc_start(), 0) {
        None => pal,
        Some(rel) => {
            let tail = rest.subrange(rel + 2, rest.len() as int);
            let (end, consumed) = response_end_from(tail, 0);
            if 0 <= rel && rel + 2 <= rest.len() && 0 <= end <= consumed <= tail.len() {
                palette_from(
                    tail.subrange(consumed, tail.len() as int),
                    with_payload(pal, tail.subrange(0, end)),
                )
            } else {
                pal
            }
        },
    }
}

/// Every payload of the burst can be read without slicing off a character boundary.
pub open spec fn answers_ok(rest: Seq<u8>) -> bool
    decreases rest.len(),
{
    match find_pattern_from(rest, osc_start(), 0) {
        None => true,
        Some(rel) => {
            let tail = rest.subrange(rel + 2, rest.len() as int);
            let (end, consumed) = response_end_from(tail, 0);
            if 0 <= rel && rel + 2 <= rest.len() && 0 <= end <= consumed <= tail.len() {
                payload_ok(tail.subrange(0, end)) && answers_ok(
                    tail.subrange(consumed, tail.len() as int),
                )
            } else {
                true
            }
        },
    }
}

/// Reads a burst of terminal answers into a palette.
pub fn parse_response(buf: &[u8]) -> (p: Palette)
    requires
        answers_ok(buf@),
    ensures
        p == palette_from(buf@, empty_palette()),
{
    let mut palette = Palette {
        color1: None,
        color2: None,
        color3: None,
        color5: None,
        color8: None,
        fg: None,
        bg: None,
    };
    let mut rest: &[u8] = buf;
    let needle: &[u8] = &[0x1bu8, 0x5du8];
    assert(needle@ == osc_start());
    loop
        invariant
            needle@ == osc_start(),
            answers_ok(rest@),
            palette_from(rest@, palette) == palette_from(buf@, empty_palette()),
        ensures
            palette == palette_from(buf@, empty_palette()),
        decreases rest@.len(),
    {
        let n = rest.len();
        let rel = match find_pattern(rest, needle) {
            Some(k) => k,
            None => break,
        };
        let start = rel + 2;
        let tail = &rest[start..n];
        let (end, consumed) = response_end(tail);
        proof {
            lemma_find_pattern_bounds(rest@, osc_start(), 0);
            lemma_response_end_bounds(tail@, 0);
        }
        parse_payload(&tail[0..end], &mut palette);
        rest = &tail[consumed..tail.len()];
    }
    palette
}


// ---------- where reading would break ----------

fn comp_readable(comp: &[u8]) -> (r: bool)
    ensures
        r == comp_slice_ok(comp@),
{
    !(comp.len() > 2 && 0x80 <= comp[2] && comp[2] <= 0xbf)
}

fn rgb_readable(s: &[u8]) -> (r: bool)
    ensures
        r == rgb_ok(s@),
{
    if s.len() < 4 || !(s[0] == 0x72 && s[1] == 0x67 && s[2] == 0x62 && s[3] == 0x3a) {
        proof {
            if s@.len() >= 4 && s@.subrange(0, 4) == rgb_tag() {
                assert(s@.subrange(0, 4)[0] == s@[0]);
                assert(s@.subrange(0, 4)[1] == s@[1]);
                assert(s@.subrange(0, 4)[2] == s@[2]);
                assert(s@.subrange(0, 4)[3] == s@[3]);
            }
        }
        return true;
    }
    assert(s@.subrange(0, 4) == rgb_tag());
    let hex = &s[4..s.len()];
    let (p0, rest0) = split_first(hex, 0x2f);
    if !comp_readable(p0) {
        return false;
    }
    let first = parse_hex_comp(p0);
    let h1 = match rest0 {
        Some(h) => h,
        None => return true,
    };
    if first.is_none() {
        return true;
    }
    let (p1, rest1) = split_first(h1, 0x2f);
    if !comp_readable(p1) {
        return false;
    }
    let second = parse_hex_comp(p1);
    let h2 = match rest1 {
        Some(h) => h,
        None => return true,
    };
    if second.is_none() {
        return true;
    }
    let (p2, _) = split_first(h2, 0x2f);
    comp_readable(p2)
}

fn payload_readable(payload: &[u8]) -> (r: bool)
    ensures
        r == payload_ok(payload@),
{
    if !is_utf8(payload) {
        return true;
    }
    let (code, after) = split_first(payload, 0x3b);
    let rest: &[u8] = match after {
        Some(r) => r,
        None => &[],
    };
    assert(rest@ == or_empty(after_first(payload@, 0x3b)));
    let ten: &[u8] = &[0x31u8, 0x30u8];
    let eleven: &[u8] = &[0x31u8, 0x31u8];
    let four: &[u8] = &[0x34u8];
    assert(ten@ =~= seq![0x31u8, 0x30u8]);
    assert(eleven@ =~= seq![0x31u8, 0x31u8]);
    assert(four@ =~= seq![0x34u8]);
    if bytes_eq(code, ten) || bytes_eq(code, eleven) {
        rgb_readable(rest)
    } else if bytes_eq(code, four) {
        let (idx_text, color_part) = split_first(rest, 0x3b);
        if parse_u8(idx_text, 10).is_none() {
            return true;
        }
        let color_text: &[u8] = match color_part {
            Some(c) => c,
            None => &[],
        };
        assert(color_text@ == or_empty(after_first(rest@, 0x3b)));
        rgb_readable(color_text)
    } else {
        true
    }
}

/// Whether [`parse_response`] may read these answers: no colour component
/// would be sliced off a character boundary.
pub fn answers_readable(buf: &[u8]) -> (r: bool)
    ensures
        r == answers_ok(buf@),
{
    let mut rest: &[u8] = buf;
    let needle: &[u8] = &[0x1bu8, 0x5du8];
    assert(needle@ == osc_start());
    loop
        invariant
            needle@ == osc_start(),
            answers_ok(rest@) == answers_ok(buf@),
        decreases rest@.len(),
    {
        let n = rest.len();
        let rel = match find_pattern(rest, needle) {
            Some(k) => k,
            None => return true,
        };
        let start = rel + 2;
        let tail = &rest[start..n];
        let (end, consumed) = response_end(tail);
        proof {
            lemma_find_pattern_bounds(rest@, osc_start(), 0);
            lemma_response_end_bounds(tail@, 0);
        }
        if !payload_readable(&tail[0..end]) {
            return false;
        }
        rest = &tail[consumed..tail.len()];
    }
}

} // verus!
