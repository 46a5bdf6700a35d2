use vstd::prelude::*;
use vstd::string::*;
use crate::color::Color;

verus! {

/// The escape character that starts a control sequence.
pub const ESC: char = '\u{1b}';

/// Whether the two characters at `i` are the control sequence introducer,
/// escape followed by `[`.
pub open spec fn csi_at(s: Seq<char>, i: int) -> bool {
    0 <= i && i + 2 <= s.len() && s[i] == ESC && s[i + 1] == '['
}

/// The place of the first introducer at or after `i`, or the length of `s`
/// where none follows.
pub open spec fn next_csi(s: Seq<char>, i: int) -> int
    decreases s.len() - i,
{
    if i < 0 || i + 2 > s.len() {
        s.len() as int
    } else if csi_at(s, i) {
        i
    } else {
        next_csi(s, i + 1)
    }
}

/// The colour that the digit after `3` selects in a colour code.
pub open spec fn digit_color(c: char) -> Option<Color> {
    if c == '0' { Some(Color::Black) }
    else if c == '1' { Some(Color::Red) }
    else if c == '2' { Some(Color::Green) }
    else if c == '3' { Some(Color::Yellow) }
    else if c == '4' { Some(Color::Blue) }
    else if c == '5' { Some(Color::Magenta) }
    else if c == '6' { Some(Color::Cyan) }
    else if c == '7' { Some(Color::Gray) }
    else { None }
}

/// The colour code that a fragment starts with, as its length and colour.
/// The codes are `0m` (white), and for each digit `d` from 0 to 7 both `3dm`
/// and `0;3dm` (black, red, green, yellow, blue, magenta, cyan, gray). No two
/// of them start the same fragment.
pub open spec fn code_of(f: Seq<char>) -> Option<(nat, Color)> {
    if f.len() >= 2 && f[0] == '0' && f[1] == 'm' {
        Some((2nat, Color::White))
    } else if f.len() >= 3 && f[0] == '3' && digit_color(f[1]) is Some && f[2] == 'm' {
        Some((3nat, digit_color(f[1])->0))
    } else if f.len() >= 5 && f[0] == '0' && f[1] == ';' && f[2] == '3' && digit_color(f[3]) is Some
        && f[4] == 'm' {
        Some((5nat, digit_color(f[3])->0))
    } else {
        None
    }
}

/// What one fragment between introducers contributes: nothing where it is
/// empty or holds a colour code and no more, the text behind its colour code
/// in that colour, or, without a code, the whole fragment in white.
pub open spec fn fragment_segment(f: Seq<char>) -> Option<(Seq<char>, Color)> {
    if f.len() == 0 {
        None
    } else {
        match code_of(f) {
            Some((n, color)) => if f.len() == n {
                None
            } else {
                Some((f.skip(n as int), color))
            },
            None => Some((f, Color::White)),
        }
    }
}

/// The segments of the part of `s` that starts at `i`, a place where a
/// fragment begins.
pub open spec fn decode_from(s: Seq<char>, i: int) -> Seq<(Seq<char>, Color)>
    decreases s.len() - i,
{
    if i < 0 || i > s.len() {
        Seq::empty()
    } else {
        let j = next_csi(s, i);
        let head = match fragment_segment(s.subrange(i, j)) {
            Some(seg) => seq![seg],
            None => Seq::empty(),
        };
        if j < i || j + 2 > s.len() {
            head
        } else {
            head + decode_from(s, j + 2)
        }
    }
}

/// The coloured segments of a raw chunk of text: the chunk is cut at each
/// introducer, and each fragment contributes as `fragment_segment` says, in
/// the order of the input.
pub open spec fn decode(s: Seq<char>) -> Seq<(Seq<char>, Color)> {
    decode_from(s, 0)
}

/// A list of segments as plain values.
pub open spec fn segments_view(v: Seq<(String, Color)>) -> Seq<(Seq<char>, Color)> {
    v.map_values(|p: (String, Color)| (p.0@, p.1))
}

/// `next_csi` finds the first introducer from `i` on: it lies within the
/// text, an introducer stands there unless it is the end, and none stands
/// before it.
pub proof fn lemma_next_csi_bounds(s: Seq<char>, i: int)
    requires
        0 <= i <= s.len(),
    ensures
        i <= next_csi(s, i) <= s.len(),
        next_csi(s, i) < s.len() ==> csi_at(s, next_csi(s, i)),
        forall|k: int| i <= k < next_csi(s, i) ==> !csi_at(s, k),
    decreases s.len() - i,
{
    if i + 2 > s.len() {
    } else if csi_at(s, i) {
    } else {
        lemma_next_csi_bounds(s, i + 1);
    }
}

/// A text without an introducer is one fragment: it decodes to what that
/// fragment contributes. So plain text comes out whole and in white, and
/// the empty text gives nothing.
pub proof fn lemma_decode_without_introducer(s: Seq<char>)
    requires
        forall|i: int| !csi_at(s, i),
    ensures
        decode(s) == match fragment_segment(s) {
            Some(seg) => seq![seg],
            None => Seq::<(Seq<char>, Color)>::empty(),
        },
        s.len() == 0 ==> decode(s) == Seq::<(Seq<char>, Color)>::empty(),
        s.len() > 0 && code_of(s) is None ==> decode(s) == seq![(s, Color::White)],
{
    lemma_next_csi_bounds(s, 0);
    assert(s.subrange(0, s.len() as int) =~= s);
}

/// No segment of a decoded text is empty, from whichever fragment the
/// decoding starts; `decode(s)` starts at 0.
pub proof fn lemma_decode_segments_hold_text(s: Seq<char>, i: int)
    requires
        0 <= i <= s.len(),
    ensures
        forall|k: int|
            0 <= k < decode_from(s, i).len() ==> (#[trigger] decode_from(s, i)[k]).0.len() > 0,
    decreases s.len() - i,
{
    lemma_next_csi_bounds(s, i);
    let j = next_csi(s, i);
    let head = match fragment_segment(s.subrange(i, j)) {
        Some(seg) => seq![seg],
        None => Seq::<(Seq<char>, Color)>::empty(),
    };
    assert(forall|k: int| 0 <= k < head.len() ==> (#[trigger] head[k]).0.len() > 0);
    if j + 2 <= s.len() {
        lemma_decode_segments_hold_text(s, j + 2);
        let rest = decode_from(s, j + 2);
        assert forall|k: int| 0 <= k < decode_from(s, i).len() implies (#[trigger] decode_from(
            s,
            i,
        )[k]).0.len() > 0 by {
            if k >= head.len() {
                assert(decode_from(s, i)[k] == rest[k - head.len()]);
            } else {
                assert(decode_from(s, i)[k] == head[k]);
            }
        }
    }
}

fn digit_color_of(c: char) -> (r: Option<Color>)
    ensures
        r == digit_color(c),
{
    if c == '0' { Some(Color::Black) }
    else if c == '1' { Some(Color::Red) }
    else if c == '2' { Some(Color::Green) }
    else if c == '3' { Some(Color::Yellow) }
    else if c == '4' { Some(Color::Blue) }
    else if c == '5' { Some(Color::Magenta) }
    else if c == '6' { Some(Color::Cyan) }
    else if c == '7' { Some(Color::Gray) }
    else { None }
}

/// Looks up the colour code at the start of a fragment.
pub fn match_code(f: &str) -> (r: Option<(usize, Color)>)
    ensures
        match r {
            Some((n, color)) => code_of(f@) == Some((n as nat, color)),
            None => code_of(f@) is None,
        },
{
    let n: usize = f.unicode_len();
    if n < 2 {
        return None;
    }
    let c0 = f.get_char(0);
    let c1 = f.get_char(1);
    if c0 == '0' && c1 == 'm' {
        return Some((2, Color::White));
    }
    if n < 3 {
        return None;
    }
    let c2 = f.get_char(2);
    if c0 == '3' && c2 == 'm' {
        return match digit_color_of(c1) {
            Some(color) => Some((3, color)),
            None => None,
        };
    }
    if n < 5 {
        return None;
    }
    let c3 = f.get_char(3);
    let c4 = f.get_char(4);
    if c0 == '0' && c1 == ';' && c2 == '3' && c4 == 'm' {
        return match digit_color_of(c3) {
            Some(color) => Some((5, color)),
            None => None,
        };
    }
    None
}

/// Decodes one fragment between introducers.
pub fn decode_fragment(f: &str) -> (r: Option<(String, Color)>)
    ensures
        match r {
            Some(seg) => fragment_segment(f@) == Some((seg.0@, seg.1)),
            None => fragment_segment(f@) is None,
        },
{
    let n: usize = f.unicode_len();
    if n == 0 {
        return None;
    }
    match match_code(f) {
        Some((k, color)) => {
            if k == n {
                None
            } else {
                let rest = f.substring_char(k, n);
                assert(rest@ =~= f@.skip(k as int));
                Some((String::from_str(rest), color))
            }
        },
        None => Some((String::from_str(f), Color::White)),
    }
}

fn is_csi_at(s: &str, n: usize, i: usize) -> (b: bool)
    requires
        n == s@.len(),
    ensures
        b == csi_at(s@, i as int),
{
    if i > n || n - i < 2 {
        false
    } else {
        s.get_char(i) == ESC && s.get_char(i + 1) == '['
    }
}

/// Decodes a raw chunk of text that may hold ANSI colour codes into its
/// coloured segments.
pub fn decode_ansi_color(text: &str) -> (res: Vec<(String, Color)>)
    ensures
        segments_view(res@) == decode(text@),
{
    let n: usize = text.unicode_len();
    let mut res: Vec<(String, Color)> = Vec::new();
    let mut i: usize = 0;
    let mut done = false;
    assert(segments_view(res@) =~= Seq::empty());
    while !done
        invariant
            n == text@.len(),
            i <= n,
            !done ==> segments_view(res@) + decode_from(text@, i as int) == decode(text@),
            done ==> segments_view(res@) == decode(text@),
        decreases n - i + (if done { 0int } else { 1int }),
    {
        let mut j: usize = i;
        while n - j >= 2 && !is_csi_at(text, n, j)
            invariant
                n == text@.len(),
                i <= j <= n,
                next_csi(text@, i as int) == next_csi(text@, j as int),
            decreases n - j,
        {
            j += 1;
        }
        if n - j < 2 {
            j = n;
        }
        proof {
            lemma_next_csi_bounds(text@, i as int);
        }
        assert(j as int == next_csi(text@, i as int));
        let ghost before = segments_view(res@);
        let frag = text.substring_char(i, j);
        match decode_fragment(frag) {
            Some(seg) => {
                res.push(seg);
                assert(segments_view(res@) =~= before.push((seg.0@, seg.1)));
            },
            None => {},
        }
        if j >= n {
            done = true;
            assert(segments_view(res@) =~= before + decode_from(text@, i as int));
        } else {
            assert(segments_view(res@) + decode_from(text@, j + 2) =~= before + decode_from(
                text@,
                i as int,
            ));
            i = j + 2;
        }
    }
    res
}

} // verus!
