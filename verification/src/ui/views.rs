//! Texts of the views.
use crate::error::{push_signed, signed_decimal};
use crate::playback::engine::LoopMode;
use crate::text::{
    decimal, decimal_value, digit_char, digit_value, is_digit, lemma_decimal_reads_back,
    lemma_digit_reads_back, push_decimal, push_digit, texts,
};
use crate::ui::app::ListItem;
use vstd::prelude::*;
use vstd::string::StringExecFns;

verus! {

/// `m:ss` of a number of seconds (negative counts as 0).
pub open spec fn duration_text(secs: int) -> Seq<char> {
    let s = if secs < 0 {
        0
    } else {
        secs
    };
    decimal((s / 60) as nat) + seq![':', digit_char((s % 60) / 10), digit_char((s % 60) % 10)]
}

/// The text of a duration reads back as the duration: minutes in decimal
/// without leading zeros, a colon, and exactly two digits of seconds below 60;
/// minutes times 60 plus seconds give the seconds, a negative count read as 0.
pub proof fn lemma_duration_text_reads_back(secs: int)
    ensures
        ({
            let t = duration_text(secs);
            let m = t.subrange(0, t.len() - 3);
            let ss = digit_value(t[t.len() - 2]) * 10 + digit_value(t[t.len() - 1]);
            &&& t.len() >= 4
            &&& t[t.len() - 3] == ':'
            &&& forall|i: int| 0 <= i < m.len() ==> is_digit(#[trigger] m[i])
            &&& m.len() > 1 ==> m[0] != '0'
            &&& is_digit(t[t.len() - 2])
            &&& is_digit(t[t.len() - 1])
            &&& 0 <= ss < 60
            &&& decimal_value(m) * 60 + ss == (if secs < 0 {
                0
            } else {
                secs
            })
        }),
{
    let s = if secs < 0 {
        0
    } else {
        secs
    };
    let t = duration_text(secs);
    let mins = decimal((s / 60) as nat);
    lemma_decimal_reads_back((s / 60) as nat);
    lemma_digit_reads_back((s % 60) / 10);
    lemma_digit_reads_back((s % 60) % 10);
    assert(t.subrange(0, t.len() - 3) =~= mins);
    assert(t[t.len() - 3] == ':');
    assert(t[t.len() - 2] == digit_char((s % 60) / 10));
    assert(t[t.len() - 1] == digit_char((s % 60) % 10));
    let r = s % 60;
    assert((r / 10) * 10 + r % 10 == r) by (nonlinear_arith)
        requires
            r >= 0,
    ;
    assert((s / 60) * 60 + s % 60 == s) by (nonlinear_arith)
        requires
            s >= 0,
    ;
}

/// A duration in seconds as `m:ss`.
pub fn fmt_duration(secs: i32) -> (r: String)
    ensures
        r@ == duration_text(secs as int),
{
    let s: u64 = if secs < 0 {
        0
    } else {
        secs as u64
    };
    let mut out = String::new();
    push_decimal(&mut out, s / 60);
    out.append(":");
    let rest = s % 60;
    push_digit(&mut out, rest / 10);
    push_digit(&mut out, rest % 10);
    proof {
        reveal_strlit(":");
    }
    assert(out@ =~= duration_text(secs as int));
    out
}

/// The repeat mode as the status bar shows it.
pub fn loop_label(mode: &LoopMode) -> (r: &'static str)
    ensures
        r@ == (match *mode {
            LoopMode::Off => "repeat: off"@,
            LoopMode::Track => "repeat: 1"@,
            LoopMode::Playlist => "repeat: all"@,
        }),
{
    match mode {
        LoopMode::Off => "repeat: off",
        LoopMode::Track => "repeat: 1",
        LoopMode::Playlist => "repeat: all",
    }
}

// ---------- rows ----------

/// The heart in front of a starred track.
pub const HEART: &'static str = "\u{2665} ";

/// A number as `{:>2}` writes it: padded on the left to two characters.
pub open spec fn padded_two(t: Seq<char>) -> Seq<char> {
    if t.len() < 2 {
        seq![' '] + t
    } else {
        t
    }
}

/// A duration after two spaces, or nothing when it is not positive.
pub open spec fn duration_part(secs: int) -> Seq<char> {
    if secs > 0 {
        "  "@ + duration_text(secs)
    } else {
        Seq::empty()
    }
}

/// The texts of a row of the main list, one per differently drawn part:
/// an artist with its album count; an album with its artist, then year and
/// duration when known; a track with its number, a heart when `starred`, its
/// title, its artist when there is one and its duration when known; a
/// playlist with its track count; the row that loads more albums.
pub open spec fn row_texts_of(item: ListItem, starred: bool) -> Seq<Seq<char>> {
    match item {
        ListItem::Artist { name, album_count, .. } => seq![
            name@,
            "  \u{b7} "@ + signed_decimal(
                match album_count {
                    Some(n) => n as int,
                    None => 0,
                },
            ) + " alb."@,
        ],
        ListItem::Album { name, artist, year, duration, .. } => seq![
            name@,
            "  \u{2014} "@ + artist@,
            match year {
                Some(y) => "  "@ + signed_decimal(y as int),
                None => Seq::empty(),
            } + duration_part(duration as int),
        ],
        ListItem::Track(t) => seq![
            match t.track_number {
                Some(n) => padded_two(signed_decimal(n as int)) + ". "@,
                None => Seq::empty(),
            },
            if starred {
                HEART@
            } else {
                Seq::empty()
            },
            t.title@,
            if t.artist@.len() > 0 {
                "  \u{2014} "@ + t.artist@
            } else {
                Seq::empty()
            },
            duration_part(t.duration as int),
        ],
        ListItem::Playlist { name, song_count, .. } => seq![
            name@,
            "  \u{b7} "@ + signed_decimal(song_count as int) + " tracks"@,
        ],
        ListItem::More => seq!["--- load more ---"@],
    }
}

fn duration_after_spaces(secs: i32) -> (r: String)
    ensures
        r@ == duration_part(secs as int),
{
    if secs > 0 {
        let mut s = "  ".to_owned();
        let d = fmt_duration(secs);
        s.append(d.as_str());
        proof {
            reveal_strlit("  ");
        }
        s
    } else {
        String::new()
    }
}

/// The texts of a row of the main list (see `row_texts_of`).
pub fn row_texts(item: &ListItem, starred: bool) -> (r: Vec<String>)
    ensures
        texts(r@) == row_texts_of(*item, starred),
{
    let mut r: Vec<String> = Vec::new();
    match item {
        ListItem::Artist { name, album_count, .. } => {
            let mut count = "  \u{b7} ".to_owned();
            push_signed(
                &mut count,
                match album_count {
                    Some(n) => *n,
                    None => 0,
                },
            );
            count.append(" alb.");
            assert(count@ =~= "  \u{b7} "@ + signed_decimal(
                match album_count {
                    Some(n) => *n as int,
                    None => 0,
                },
            ) + " alb."@);
            r.push(name.clone());
            r.push(count);
            assert(texts(r@) =~= row_texts_of(*item, starred));
        },
        ListItem::Album { name, artist, year, duration, .. } => {
            let mut by = "  \u{2014} ".to_owned();
            by.append(artist.as_str());
            let mut right = String::new();
            if let Some(y) = year {
                right.append("  ");
                push_signed(&mut right, *y);
            }
            let d = duration_after_spaces(*duration);
            right.append(d.as_str());
            proof {
                reveal_strlit("  ");
            }
            assert(by@ =~= "  \u{2014} "@ + artist@);
            assert(right@ =~= match year {
                Some(y) => "  "@ + signed_decimal(*y as int),
                None => Seq::empty(),
            } + duration_part(*duration as int));
            r.push(name.clone());
            r.push(by);
            r.push(right);
            assert(texts(r@) =~= row_texts_of(*item, starred));
        },
        ListItem::Track(t) => {
            let mut num = String::new();
            if let Some(n) = t.track_number {
                let mut digits = String::new();
                push_signed(&mut digits, n);
                if digits.as_str().unicode_len() < 2 {
                    num.append(" ");
                }
                num.append(digits.as_str());
                num.append(". ");
                proof {
                    reveal_strlit(" ");
                    reveal_strlit(". ");
                }
            }
            let heart = if starred {
                HEART.to_owned()
            } else {
                String::new()
            };
            let by = if t.artist.as_str().unicode_len() > 0 {
                let mut by = "  \u{2014} ".to_owned();
                by.append(t.artist.as_str());
                by
            } else {
                String::new()
            };
            assert(num@ =~= match t.track_number {
                Some(n) => padded_two(signed_decimal(n as int)) + ". "@,
                None => Seq::empty(),
            });
            r.push(num);
            r.push(heart);
            r.push(t.title.clone());
            r.push(by);
            r.push(duration_after_spaces(t.duration));
            assert(texts(r@) =~= row_texts_of(*item, starred));
        },
        ListItem::Playlist { name, song_count, .. } => {
            let mut count = "  \u{b7} ".to_owned();
            push_signed(&mut count, *song_count);
            count.append(" tracks");
            assert(count@ =~= "  \u{b7} "@ + signed_decimal(*song_count as int) + " tracks"@);
            r.push(name.clone());
            r.push(count);
            assert(texts(r@) =~= row_texts_of(*item, starred));
        },
        ListItem::More => {
            r.push("--- load more ---".to_owned());
            assert(texts(r@) =~= row_texts_of(*item, starred));
        },
    }
    r
}

} // verus!
