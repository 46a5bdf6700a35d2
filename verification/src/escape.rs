use vstd::prelude::*;
use vstd::string::*;
use crate::ansi::segments_view;
use crate::chars::{hex_char, hex_digit_of};
use crate::color::{highlight_color, highlight_of, Color};

verus! {

/// Whether a character is shown as it is: the printable ASCII range, from
/// the space to the tilde.
pub open spec fn visible(c: char) -> bool {
    0x20 <= c as u32 <= 0x7e
}

/// How one character is displayed. A visible one stands for itself, a line
/// feed is written as a backslash and `n`, and any other as `\x` and the two
/// lower-case hexadecimal digits of its code's low byte.
pub open spec fn escape_char(c: char) -> Seq<char> {
    if visible(c) {
        seq![c]
    } else if c == '\n' {
        seq!['\\', 'n']
    } else {
        seq![
            '\\',
            'x',
            hex_char((c as u32 % 256) as int / 16, false),
            hex_char((c as u32 % 256) as int % 16, false),
        ]
    }
}

/// A text with each of its characters displayed as `escape_char` says.
pub open spec fn escaped(s: Seq<char>) -> Seq<char>
    decreases s.len(),
{
    if s.len() == 0 {
        Seq::empty()
    } else {
        escaped(s.drop_last()) + escape_char(s.last())
    }
}

/// The end of the longest stretch that starts at `i` and whose characters
/// are all visible or all not, as the one at `i` is.
pub open spec fn run_end(s: Seq<char>, i: int) -> int
    decreases s.len() - i,
{
    if i < 0 || i + 1 >= s.len() {
        s.len() as int
    } else if visible(s[i + 1]) != visible(s[i]) {
        i + 1
    } else {
        run_end(s, i + 1)
    }
}

/// One display run: a stretch of visible characters as it is and in the
/// text's own colour, a stretch of the others escaped and in the highlight
/// colour.
pub open spec fn run_of(run: Seq<char>, shown: bool, fg: Color) -> (Seq<char>, Color) {
    if shown {
        (run, fg)
    } else {
        (escaped(run), highlight_of(fg))
    }
}

/// The display runs of the part of `s` from `i` on.
pub open spec fn runs_from(s: Seq<char>, i: int, fg: Color) -> Seq<(Seq<char>, Color)>
    decreases s.len() - i,
{
    if i < 0 || i >= s.len() {
        Seq::empty()
    } else {
        let e = run_end(s, i);
        if e <= i || e > s.len() {
            Seq::empty()
        } else {
            seq![run_of(s.subrange(i, e), visible(s[i]), fg)] + runs_from(s, e, fg)
        }
    }
}

/// The display runs of a text of colour `fg`: its longest stretches of
/// visible and of other characters, in order, none of them empty.
pub open spec fn display_runs(s: Seq<char>, fg: Color) -> Seq<(Seq<char>, Color)> {
    runs_from(s, 0, fg)
}

/// Escaping goes character by character: the displayed form of two texts
/// in a row is the displayed form of the first and then that of the second.
pub proof fn lemma_escaped_concat(a: Seq<char>, b: Seq<char>)
    ensures
        escaped(a + b) == escaped(a) + escaped(b),
    decreases b.len(),
{
    if b.len() == 0 {
        assert(a + b =~= a);
        assert(escaped(a) + escaped(b) =~= escaped(a));
    } else {
        lemma_escaped_concat(a, b.drop_last());
        assert((a + b).drop_last() =~= a + b.drop_last());
        assert(escaped(a + b) =~= escaped(a) + escaped(b));
    }
}

/// The displayed form of a text holds, for each of its characters, that
/// character's displayed form, between those of what stands before and
/// after it.
pub proof fn lemma_escaped_holds_each(s: Seq<char>, i: int)
    requires
        0 <= i < s.len(),
    ensures
        escaped(s) == escaped(s.take(i)) + escape_char(s[i]) + escaped(s.skip(i + 1)),
{
    assert(s =~= s.take(i + 1) + s.skip(i + 1));
    lemma_escaped_concat(s.take(i + 1), s.skip(i + 1));
    assert(s.take(i + 1).drop_last() =~= s.take(i));
}

/// The displayed form of any text holds visible characters only: no
/// control character and no line break reaches the screen.
pub proof fn lemma_escaped_is_visible(s: Seq<char>)
    ensures
        forall|k: int| 0 <= k < escaped(s).len() ==> visible(#[trigger] escaped(s)[k]),
    decreases s.len(),
{
    if s.len() > 0 {
        lemma_escaped_is_visible(s.drop_last());
        let c = s.last();
        assert forall|k: int| 0 <= k < escape_char(c).len() implies visible(
            #[trigger] escape_char(c)[k],
        ) by {
            let low = (c as u32 % 256) as int;
            assert(0 <= low / 16 < 16 && 0 <= low % 16 < 16);
        }
        let front = escaped(s.drop_last());
        assert forall|k: int| 0 <= k < escaped(s).len() implies visible(
            #[trigger] escaped(s)[k],
        ) by {
            if k < front.len() {
                assert(escaped(s)[k] == front[k]);
            } else {
                assert(escaped(s)[k] == escape_char(c)[k - front.len()]);
            }
        }
    }
}

/// Whether a character is shown as it is.
pub fn is_visible(x: char) -> (b: bool)
    ensures
        b == visible(x),
{
    let code: u32 = x as u32;
    0x20 <= code && code <= 0x7e
}

/// Appends the displayed form of one character.
pub fn push_escaped(out: &mut String, x: char)
    ensures
        final(out)@ == old(out)@ + escape_char(x),
{
    if is_visible(x) {
        out.push(x);
    } else if x == '\n' {
        out.push('\\');
        out.push('n');
    } else {
        let low: u8 = (x as u32 % 256) as u8;
        out.push('\\');
        out.push('x');
        out.push(hex_digit_of(low / 16, false));
        out.push(hex_digit_of(low % 16, false));
    }
    assert(final(out)@ =~= old(out)@ + escape_char(x));
}

/// Writes a text with its control characters made visible.
pub fn print_invisible(data: &str) -> (res: String)
    ensures
        res@ == escaped(data@),
{
    let n: usize = data.unicode_len();
    let mut res = String::new();
    let mut i: usize = 0;
    while i < n
        invariant
            n == data@.len(),
            i <= n,
            res@ == escaped(data@.take(i as int)),
        decreases n - i,
    {
        push_escaped(&mut res, data.get_char(i));
        assert(data@.take(i + 1).drop_last() =~= data@.take(i as int));
        i += 1;
    }
    assert(data@.take(n as int) =~= data@);
    res
}

/// Splits a text of colour `color` into its display runs.
pub fn highlight_invisible(in_text: &str, color: Color) -> (output: Vec<(String, Color)>)
    ensures
        segments_view(output@) == display_runs(in_text@, color),
{
    let n: usize = in_text.unicode_len();
    let mut output: Vec<(String, Color)> = Vec::new();
    let mut i: usize = 0;
    assert(segments_view(output@) =~= Seq::empty());
    while i < n
        invariant
            n == in_text@.len(),
            i <= n,
            segments_view(output@) + runs_from(in_text@, i as int, color) == display_runs(
                in_text@,
                color,
            ),
        decreases n - i,
    {
        let shown = is_visible(in_text.get_char(i));
        let mut j: usize = i;
        while n - j >= 2 && is_visible(in_text.get_char(j + 1)) == shown
            invariant
                n == in_text@.len(),
                i <= j < n,
                visible(in_text@[j as int]) == shown,
                run_end(in_text@, i as int) == run_end(in_text@, j as int),
            decreases n - j,
        {
            j += 1;
        }
        let e: usize = j + 1;
        assert(e as int == run_end(in_text@, i as int));
        let run = in_text.substring_char(i, e);
        let ghost before = segments_view(output@);
        let seg = if shown {
            (String::from_str(run), color)
        } else {
            (print_invisible(run), highlight_color(color))
        };
        output.push(seg);
        assert(segments_view(output@) =~= before.push(
            run_of(in_text@.subrange(i as int, e as int), shown, color),
        ));
        assert(segments_view(output@) + runs_from(in_text@, e as int, color) =~= before
            + runs_from(in_text@, i as int, color));
        i = e;
    }
    assert(segments_view(output@) + Seq::<(Seq<char>, Color)>::empty() =~= segments_view(output@));
    output
}

} // verus!
