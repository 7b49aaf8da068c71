use crate::annotation::{AnnoView, Annotation};
use crate::parser::spec::ids_among;
use crate::text::push_char;
use vstd::prelude::*;
use vstd::string::{StrSliceExecFns, StringSliceAdditionalSpecFns};
use vstd::utf8::{decode_utf8, encode_utf8, encode_utf8_decode_utf8, is_char_boundary};

verus! {

/// How many columns one byte takes on screen: two hex digits and a space.
pub const BYTE_DISPLAY_WIDTH: usize = 3;

/// A rectangle of the screen, in cells.
#[derive(Clone, Copy, Debug, PartialEq, Eq)]
pub struct Area {
    pub x: u16,
    pub y: u16,
    pub width: u16,
    pub height: u16,
}

/// The model of a [`Paint`].
pub struct PaintView {
    pub area: Area,
    pub color_key: Seq<char>,
    pub text_x: int,
    pub text: Seq<char>,
}

/// One annotation as drawn: the area it fills with its parser's colour, the identifier whose
/// colour that is, and the text written on its first row, `text_x` cells from its left edge.
pub struct Paint {
    pub area: Area,
    pub color_key: String,
    pub text_x: u16,
    pub text: String,
}

impl Paint {
    pub open spec fn view(&self) -> PaintView {
        PaintView { area: self.area, color_key: self.color_key@, text_x: self.text_x as int, text: self.text@ }
    }
}

/// The views of a sequence of paints.
pub open spec fn paint_views(s: Seq<Paint>) -> Seq<PaintView> {
    Seq::new(s.len(), |i: int| s[i].view())
}

/// The area lies on the screen.
pub open spec fn on_screen(area: Area) -> bool {
    area.x + area.width <= u16::MAX && area.y + area.height <= u16::MAX
}

/// `a - b`, or 0 where `b` is larger.
pub open spec fn minus(a: int, b: int) -> int {
    if a >= b {
        a - b
    } else {
        0
    }
}

/// The width drawn for a span of `len` bytes in an area `width` cells wide: the bytes' columns
/// without the last space, within the area.
pub open spec fn span_width(width: int, len: int) -> int {
    let w = minus(len * BYTE_DISPLAY_WIDTH, 1);
    if w < width {
        w
    } else {
        width
    }
}

/// The width that annotation `a` is drawn with in an area `width` cells wide.
pub open spec fn drawn_width(a: AnnoView, width: int) -> int {
    let (start, end) = a.result.span_of();
    match end {
        Some(e) => span_width(width, minus(e, start)),
        None => width,
    }
}

/// Where a child starting at byte `child_start` is drawn, in cells from its parent's left edge,
/// the parent starting at byte `parent_start`.
pub open spec fn child_offset(child_start: int, parent_start: int) -> int {
    minus(child_start, parent_start) * BYTE_DISPLAY_WIDTH
}

/// The first character boundary of `bytes` at or after byte `k` (the end where there is none
/// before it).
pub open spec fn boundary_from(bytes: Seq<u8>, k: int) -> int
    decreases bytes.len() - k,
{
    if k >= bytes.len() {
        bytes.len() as int
    } else if is_char_boundary(bytes, k) {
        k
    } else {
        boundary_from(bytes, k + 1)
    }
}

/// The text shown in `width` cells, measured in bytes of its UTF-8 encoding: all of it,
/// `width` less its length from the left edge, where it fits; else its last `width` bytes, cut
/// forward to a character boundary.
pub open spec fn fitted(text: Seq<char>, width: int) -> (int, Seq<char>) {
    let bytes = encode_utf8(text);
    if bytes.len() <= width {
        (width - bytes.len(), text)
    } else {
        (0, decode_utf8(bytes.subrange(boundary_from(bytes, bytes.len() - width), bytes.len() as int)))
    }
}

/// What drawing annotation `a` in `area` paints: nothing where the area has no rows; else the
/// annotation across its span, then its children one row lower, each from its own start, as
/// far as they begin inside the annotation's width.
pub open spec fn spec_layout(a: AnnoView, area: Area) -> Seq<PaintView>
    decreases a, a.children.len() + 1,
{
    if area.height == 0 {
        seq![]
    } else {
        let width = drawn_width(a, area.width as int);
        let (text_x, text) = fitted(a.result.display(), width);
        let me = PaintView {
            area: Area { width: width as u16, ..area },
            color_key: a.id,
            text_x,
            text,
        };
        seq![me] + layout_children(a, Area { width: width as u16, ..area }, 0)
    }
}

/// What drawing the children of `a` from number `i` on paints, `a` being drawn in `area`.
pub open spec fn layout_children(a: AnnoView, area: Area, i: nat) -> Seq<PaintView>
    decreases a, a.children.len() - i,
{
    if i >= a.children.len() {
        seq![]
    } else {
        let offset = child_offset(a.children[i as int].result.span_of().0, a.result.span_of().0);
        if offset >= area.width {
            seq![]
        } else {
            let child_area = Area {
                x: (area.x + offset) as u16,
                width: (area.width - offset) as u16,
                y: (area.y + 1) as u16,
                height: (area.height - 1) as u16,
            };
            spec_layout(a.children[i as int], child_area) + layout_children(a, area, i + 1)
        }
    }
}

/// A child is drawn one row below its parent, starting three cells to the right for each byte
/// between the parent's start and its own, and inside the parent's width: drawing the children
/// of `a` in `area` from child `i` on begins with child `i` itself, placed so, where it begins
/// inside the area and there is a row for it.
pub proof fn lemma_child_placed(a: AnnoView, area: Area, i: nat)
    requires
        on_screen(area),
        area.height >= 2,
        i < a.children.len(),
        child_offset(a.children[i as int].result.span_of().0, a.result.span_of().0) < area.width,
    ensures
        layout_children(a, area, i).len() >= 1,
        layout_children(a, area, i)[0].color_key == a.children[i as int].id,
        layout_children(a, area, i)[0].area.y == area.y + 1,
        a.children[i as int].result.span_of().0 >= a.result.span_of().0 ==> layout_children(
            a,
            area,
            i,
        )[0].area.x == area.x + 3 * (a.children[i as int].result.span_of().0
            - a.result.span_of().0),
        layout_children(a, area, i)[0].area.x >= area.x,
        layout_children(a, area, i)[0].area.x + layout_children(a, area, i)[0].area.width
            <= area.x + area.width,
{
    let offset = child_offset(a.children[i as int].result.span_of().0, a.result.span_of().0);
    let child_area = Area {
        x: (area.x + offset) as u16,
        width: (area.width - offset) as u16,
        y: (area.y + 1) as u16,
        height: (area.height - 1) as u16,
    };
    let first = spec_layout(a.children[i as int], child_area);
    assert(layout_children(a, area, i) == first + layout_children(a, area, i + 1));
    assert(first.len() >= 1);
    assert(layout_children(a, area, i)[0] == first[0]);
}

/// Every area that drawing an annotation paints takes its colour from an identifier in the
/// annotation tree: where those identifiers are all among `ids`, so are the colour keys.
pub proof fn lemma_layout_keys(a: AnnoView, area: Area, ids: Seq<Seq<char>>)
    requires
        ids_among(a, ids),
    ensures
        forall|k: int|
            0 <= k < spec_layout(a, area).len() ==> ids.contains(
                #[trigger] spec_layout(a, area)[k].color_key,
            ),
    decreases a, a.children.len() + 1,
{
    if area.height != 0 {
        let width = drawn_width(a, area.width as int);
        let drawn = Area { width: width as u16, ..area };
        lemma_layout_children_keys(a, drawn, 0, ids);
        let rest = layout_children(a, drawn, 0);
        let all = spec_layout(a, area);
        assert forall|k: int| 0 <= k < all.len() implies ids.contains(
            #[trigger] all[k].color_key,
        ) by {
            if k > 0 {
                assert(all[k] == rest[k - 1]);
            }
        }
    }
}

/// The colour keys of what drawing the children of `a` from number `i` on paints are
/// identifiers in `a`'s tree.
pub proof fn lemma_layout_children_keys(a: AnnoView, area: Area, i: nat, ids: Seq<Seq<char>>)
    requires
        ids_among(a, ids),
    ensures
        forall|k: int|
            0 <= k < layout_children(a, area, i).len() ==> ids.contains(
                #[trigger] layout_children(a, area, i)[k].color_key,
            ),
    decreases a, a.children.len() - i,
{
    if i < a.children.len() {
        let offset = child_offset(a.children[i as int].result.span_of().0, a.result.span_of().0);
        if offset < area.width {
            let child_area = Area {
                x: (area.x + offset) as u16,
                width: (area.width - offset) as u16,
                y: (area.y + 1) as u16,
                height: (area.height - 1) as u16,
            };
            lemma_layout_keys(a.children[i as int], child_area, ids);
            lemma_layout_children_keys(a, area, i + 1, ids);
            let first = spec_layout(a.children[i as int], child_area);
            let rest = layout_children(a, area, i + 1);
            let all = layout_children(a, area, i);
            assert(all == first + rest);
            assert forall|k: int| 0 <= k < all.len() implies ids.contains(
                #[trigger] all[k].color_key,
            ) by {
                if k < first.len() {
                    assert(all[k] == first[k]);
                } else {
                    assert(all[k] == rest[k - first.len()]);
                }
            }
        }
    }
}

/// The text shown in `width` cells (see [`fitted`]).
fn fit_text(text: String, width: u16) -> (r: (u16, String))
    ensures
        r.0 as int == fitted(text@, width as int).0,
        r.1@ == fitted(text@, width as int).1,
{
    let s = text.as_str();
    let ghost bytes = encode_utf8(s@);
    let n = s.as_bytes().len();
    proof {
        assert(s.spec_bytes() == encode_utf8(s@));
        assert(n == bytes.len());
    }
    if n <= width as usize {
        return ((width as usize - n) as u16, text);
    }
    let mut cut = n - width as usize;
    while cut < n && !s.is_char_boundary(cut)
        invariant
            n == bytes.len(),
            bytes == s.spec_bytes(),
            cut <= n,
            boundary_from(bytes, (n - width) as int) == boundary_from(bytes, cut as int),
        decreases n - cut,
    {
        cut = cut + 1;
    }
    if cut == n {
        proof {
            assert(bytes.subrange(n as int, n as int) =~= Seq::<u8>::empty());
            assert(decode_utf8(Seq::<u8>::empty()) =~= Seq::<char>::empty());
        }
        return (0, String::new());
    }
    let (_, tail) = s.split_at(cut);
    proof {
        encode_utf8_decode_utf8(tail@);
    }
    (0, tail.to_owned())
}

/// The byte where an annotation's span starts.
fn span_start(a: &Annotation) -> (r: usize)
    ensures
        r as int == a.view().result.span_of().0,
{
    a.result.span().0
}

/// Lays out annotation `annotation` in `area` (see [`spec_layout`]).
pub fn layout_annotation(annotation: &Annotation, area: Area) -> (r: Vec<Paint>)
    requires
        on_screen(area),
    ensures
        paint_views(r@) == spec_layout(annotation.view(), area),
    decreases annotation.view(), annotation.view().children.len() + 1,
{
    if area.height == 0 {
        // Ran out of space, so don't render anything
        return Vec::new();
    }
    let (start, end) = annotation.result.span();
    // Make sure we only try to draw the spanned area
    let width: u16 = match end {
        Some(e) => {
            let len = if e >= start {
                e - start
            } else {
                0
            };
            if len > area.width as usize {
                area.width
            } else {
                let w = if len * BYTE_DISPLAY_WIDTH >= 1 {
                    len * BYTE_DISPLAY_WIDTH - 1
                } else {
                    0
                };
                if w < area.width as usize {
                    w as u16
                } else {
                    area.width
                }
            }
        },
        None => area.width,
    };
    proof {
        let v = annotation.view();
        assert(width as int == drawn_width(v, area.width as int));
    }
    let drawn = Area { width, ..area };
    let (text_x, text) = fit_text(annotation.result.to_string(), width);
    let mut paints = Vec::new();
    paints.push(Paint { area: drawn, color_key: annotation.parser_id.clone(), text_x, text });
    let mut rest = layout_children_from(annotation, drawn, start, 0);
    let ghost first = paints@;
    paints.append(&mut rest);
    proof {
        assert(paint_views(paints@) =~= paint_views(first) + layout_children(annotation.view(), drawn, 0));
        assert(paint_views(first) =~= seq![paint_views(first)[0]]);
    }
    paints
}

/// Lays out the children of `parent` from number `i` on, `parent` being drawn in `area` and
/// starting at byte `start`.
fn layout_children_from(parent: &Annotation, area: Area, start: usize, i: usize) -> (r: Vec<Paint>)
    requires
        on_screen(area),
        area.height >= 1,
        start as int == parent.view().result.span_of().0,
        i <= parent.children@.len(),
    ensures
        paint_views(r@) == layout_children(parent.view(), area, i as nat),
    decreases parent.view(), parent.view().children.len() - i,
{
    if i >= parent.children.len() {
        return Vec::new();
    }
    let child = &parent.children[i];
    proof {
        assert(parent.view().children[i as int] == child.view());
    }
    let child_start = span_start(child);
    let diff = if child_start >= start {
        child_start - start
    } else {
        0
    };
    if diff >= area.width as usize {
        // Gone off the right, stop rendering
        return Vec::new();
    }
    let offset = diff * BYTE_DISPLAY_WIDTH;
    if offset >= area.width as usize {
        return Vec::new();
    }
    let child_area = Area {
        x: area.x + offset as u16,
        width: area.width - offset as u16,
        y: area.y + 1,
        height: area.height - 1,
    };
    let mut paints = layout_annotation(child, child_area);
    let mut rest = layout_children_from(parent, area, start, i + 1);
    let ghost first = paint_views(paints@);
    paints.append(&mut rest);
    proof {
        assert(paint_views(paints@) =~= first + layout_children(parent.view(), area, (i + 1) as nat));
    }
    paints
}

/// The hex digit for `d`, in lower case.
pub open spec fn hex_digit(d: nat) -> char {
    if d < 10 {
        ((d + 48) as u8) as char
    } else {
        ((d + 87) as u8) as char
    }
}

/// The bytes written as two-digit lower-case hex numbers, separated by spaces.
pub open spec fn hex_line(bytes: Seq<u8>) -> Seq<char>
    decreases bytes.len(),
{
    if bytes.len() == 0 {
        seq![]
    } else if bytes.len() == 1 {
        seq![hex_digit(bytes[0] as nat / 16), hex_digit(bytes[0] as nat % 16)]
    } else {
        hex_line(bytes.drop_last()) + seq![' '] + hex_line(seq![bytes.last()])
    }
}

/// Whether `c` is a lower-case hex digit.
pub open spec fn is_hex_digit(c: char) -> bool {
    ('0' <= c && c <= '9') || ('a' <= c && c <= 'f')
}

/// The value of hex digit `c`.
pub open spec fn digit_value(c: char) -> int {
    if c <= '9' {
        c as int - '0' as int
    } else {
        c as int - 'a' as int + 10
    }
}

/// The value of the two hex digits at `3 * k` and `3 * k + 1` of `line`.
pub open spec fn pair_value(line: Seq<char>, k: int) -> int {
    digit_value(line[3 * k]) * 16 + digit_value(line[3 * k + 1])
}

/// Each hex digit reads back as the number it stands for.
proof fn lemma_hex_digit(d: nat)
    requires
        d < 16,
    ensures
        is_hex_digit(hex_digit(d)),
        digit_value(hex_digit(d)) == d,
{
    if d < 10 {
        assert(((d + 48) as u8) as char as int == d + 48);
    } else {
        assert(((d + 87) as u8) as char as int == d + 87);
    }
}

/// Line `line` shows byte `b` at pair `k`: two hex digits, high digit first, whose value is `b`.
pub open spec fn shows_byte(line: Seq<char>, k: int, b: u8) -> bool {
    &&& is_hex_digit(line[3 * k])
    &&& is_hex_digit(line[3 * k + 1])
    &&& pair_value(line, k) == b
}

/// A line of bytes in hex reads back as the bytes: byte `k` is shown at `3 * k` as two hex
/// digits, high digit first, whose value is the byte, and the pairs are separated by single
/// spaces.
pub proof fn lemma_hex_line_reads_back(bytes: Seq<u8>)
    ensures
        bytes.len() == 0 ==> hex_line(bytes).len() == 0,
        bytes.len() > 0 ==> hex_line(bytes).len() == 3 * bytes.len() - 1,
        forall|k: int| 0 <= k < bytes.len() ==> #[trigger] shows_byte(hex_line(bytes), k, bytes[k]),
        forall|k: int| 0 <= k < bytes.len() - 1 ==> #[trigger] hex_line(bytes)[3 * k + 2] == ' ',
    decreases bytes.len(),
{
    if bytes.len() == 1 {
        let b = bytes[0] as nat;
        lemma_hex_digit(b / 16);
        lemma_hex_digit(b % 16);
        assert(b == (b / 16) * 16 + b % 16) by (nonlinear_arith);
        let line = hex_line(bytes);
        assert(line[0] == hex_digit(b / 16));
        assert(line[1] == hex_digit(b % 16));
        assert(pair_value(line, 0) == (b / 16) * 16 + b % 16);
        assert(shows_byte(line, 0, bytes[0]));
    } else if bytes.len() > 1 {
        let front = bytes.drop_last();
        let last = seq![bytes.last()];
        lemma_hex_line_reads_back(front);
        lemma_hex_line_reads_back(last);
        let lf = hex_line(front);
        let ll = hex_line(last);
        let line = hex_line(bytes);
        assert(line == lf + seq![' '] + ll);
        let m = bytes.len() - 1;
        assert forall|k: int| 0 <= k < bytes.len() implies #[trigger] shows_byte(
            line,
            k,
            bytes[k],
        ) by {
            if k < m {
                assert(shows_byte(lf, k, front[k]));
                assert(line[3 * k] == lf[3 * k]);
                assert(line[3 * k + 1] == lf[3 * k + 1]);
            } else {
                assert(shows_byte(ll, 0, last[0]));
                assert(line[3 * k] == ll[0]);
                assert(line[3 * k + 1] == ll[1]);
            }
        }
        assert forall|k: int| 0 <= k < bytes.len() - 1 implies #[trigger] line[3 * k + 2] == ' ' by {
            if k < m - 1 {
                assert(line[3 * k + 2] == lf[3 * k + 2]);
            } else {
                assert(3 * k + 2 == lf.len());
            }
        }
    }
}

fn hex_char(d: u8) -> (c: char)
    requires
        d < 16,
    ensures
        c == hex_digit(d as nat),
{
    if d < 10 {
        (d + 48) as char
    } else {
        (d + 87) as char
    }
}

/// The line of bytes under the annotations: as many bytes as fit in `width` cells, in hex.
pub fn byte_line(bytes: &[u8], width: u16) -> (r: String)
    ensures
        r@ == hex_line(bytes@.take(if bytes@.len() < width / 3 { bytes@.len() as int } else { (width / 3) as int })),
        forall|k: int|
            0 <= k < bytes@.len() && k < width / 3 ==> #[trigger] shows_byte(r@, k, bytes@[k]),
        forall|k: int|
            0 <= k && k + 1 < bytes@.len() && k + 1 < width / 3 ==> #[trigger] r@[3 * k + 2] == ' ',
{
    let fit = width as usize / BYTE_DISPLAY_WIDTH;
    let n = if bytes.len() < fit {
        bytes.len()
    } else {
        fit
    };
    let mut s = String::new();
    for i in 0..n
        invariant
            n <= bytes@.len(),
            s@ == hex_line(bytes@.take(i as int)),
    {
        let b = bytes[i];
        if i > 0 {
            push_char(&mut s, ' ');
        }
        push_char(&mut s, hex_char(b / 16));
        push_char(&mut s, hex_char(b % 16));
        proof {
            let t = bytes@.take(i + 1);
            assert(t.drop_last() =~= bytes@.take(i as int));
            assert(seq![t.last()] =~= seq![b]);
            reveal_with_fuel(hex_line, 2);
            if i == 0 {
                assert(bytes@.take(0) =~= Seq::<u8>::empty());
            }
        }
    }
    proof {
        let shown = bytes@.take(n as int);
        lemma_hex_line_reads_back(shown);
        assert forall|k: int| 0 <= k < bytes@.len() && k < width / 3 implies #[trigger] shows_byte(
            s@,
            k,
            bytes@[k],
        ) by {
            assert(shown[k] == bytes@[k]);
        }
    }
    s
}

} // verus!
