//! Images of icons.

use vstd::prelude::*;

verus! {

/// Largest width and height of an icon.
pub const MAX_ICON_PIXELS: i32 = 1024;

/// An image: rows of pixels of four bytes, the last of which is the opacity.
#[derive(Debug, Clone, PartialEq, Eq)]
pub struct PixelImage {
    pub width: u32,
    pub height: u32,
    pub data: Vec<u8>,
}

impl PixelImage {
    /// The invariant: a number of pixels that fits the width and the height.
    pub open spec fn valid(self) -> bool {
        &&& 1 <= self.width <= 1024
        &&& 1 <= self.height <= 1024
        &&& self.data@.len() == self.width * self.height * 4
    }

    /// Whether a pixel is not fully transparent.
    pub open spec fn visible(self, x: int, y: int) -> bool {
        &&& 0 <= x < self.width
        &&& 0 <= y < self.height
        &&& self.data@[(y * self.width + x) * 4 + 3] != 0
    }

    /// Whether some pixel is visible.
    pub open spec fn any_visible(self) -> bool {
        exists|x: int, y: int| self.visible(x, y)
    }

    /// Whether the box is the smallest that holds every visible pixel.
    pub open spec fn is_box(self, left: int, top: int, right: int, bottom: int) -> bool {
        &&& forall|x: int, y: int|
            #[trigger] self.visible(x, y) ==> left <= x <= right && top <= y <= bottom
        &&& exists|x: int, y: int| #[trigger] self.visible(x, y) && x == left
        &&& exists|x: int, y: int| #[trigger] self.visible(x, y) && x == right
        &&& exists|x: int, y: int| #[trigger] self.visible(x, y) && y == top
        &&& exists|x: int, y: int| #[trigger] self.visible(x, y) && y == bottom
    }

    /// Whether a box is small and lies in the top left part of the image: it covers less than a
    /// quarter, and its centre lies before three tenths of the width and of the height.
    pub open spec fn in_corner(self, left: int, top: int, right: int, bottom: int) -> bool {
        &&& (right - left + 1) * (bottom - top + 1) * 4 < self.width * self.height
        &&& (left + right) * 10 < self.width * 6
        &&& (top + bottom) * 10 < self.height * 6
    }

    /// Whether only a small part at the top left of the image is used.
    pub open spec fn corner_only(self) -> bool {
        !self.any_visible() || exists|left: int, top: int, right: int, bottom: int| #[trigger]
            self.is_box(left, top, right, bottom) && self.in_corner(left, top, right, bottom)
    }
}

proof fn box_is_unique(
    image: PixelImage,
    a: (int, int, int, int),
    b: (int, int, int, int),
)
    requires
        image.is_box(a.0, a.1, a.2, a.3),
        image.is_box(b.0, b.1, b.2, b.3),
    ensures
        a == b,
{
}

proof fn pixel_index(x: int, y: int, width: int, height: int)
    requires
        0 <= x < width,
        0 <= y < height,
    ensures
        0 <= (y * width + x) * 4 + 3 < width * height * 4,
{
    assert(y * width + x < width * height) by (nonlinear_arith)
        requires
            0 <= x < width,
            0 <= y < height,
    ;
    assert(0 <= y * width) by (nonlinear_arith)
        requires
            0 <= x < width,
            0 <= y,
    ;
}

/// Whether an image that the system scaled uses only a small part at the top left. Such an icon
/// exists in a smaller size only.
pub fn topleft_only(image: &PixelImage) -> (r: bool)
    requires
        image.valid(),
    ensures
        r == image.corner_only(),
{
    let width = image.width;
    let height = image.height;
    let mut found = false;
    let mut left: u32 = 0;
    let mut top: u32 = 0;
    let mut right: u32 = 0;
    let mut bottom: u32 = 0;
    let ghost mut at: (int, int, int, int) = (0, 0, 0, 0);
    let mut y: u32 = 0;
    while y < height
        invariant
            image.valid(),
            width == image.width,
            height == image.height,
            y <= height,
            !found ==> forall|a: int, b: int| b < y ==> !#[trigger] image.visible(a, b),
            found ==> top <= y,
            found ==> left <= right < width && top <= bottom < height && forall|a: int, b: int|
                #[trigger] image.visible(a, b) && b < y ==> left <= a <= right && top <= b
                    <= bottom,
            found ==> image.visible(left as int, at.0) && image.visible(right as int, at.1)
                && image.visible(at.2, top as int) && image.visible(at.3, bottom as int),
        decreases height - y,
    {
        let mut x: u32 = 0;
        while x < width
            invariant
                image.valid(),
                width == image.width,
                height == image.height,
                x <= width,
                y < height,
                !found ==> forall|a: int, b: int|
                    b < y || (b == y && a < x) ==> !#[trigger] image.visible(a, b),
                found ==> top <= y,
                found ==> left <= right < width && top <= bottom < height && forall|
                    a: int,
                    b: int,
                |
                    #[trigger] image.visible(a, b) && (b < y || (b == y && a < x)) ==> left <= a
                        <= right && top <= b <= bottom,
                found ==> image.visible(left as int, at.0) && image.visible(right as int, at.1)
                    && image.visible(at.2, top as int) && image.visible(at.3, bottom as int),
            decreases width - x,
        {
            proof {
                pixel_index(x as int, y as int, width as int, height as int);
            }
            assert(y * width <= 1023 * 1024) by (nonlinear_arith)
                requires
                    y <= 1023,
                    width <= 1024,
            ;
            let index: usize = (y as usize * width as usize + x as usize) * 4 + 3;
            if image.data[index] != 0 {
                assert(image.visible(x as int, y as int));
                if !found {
                    found = true;
                    left = x;
                    right = x;
                    top = y;
                    bottom = y;
                    proof {
                        at = (y as int, y as int, x as int, x as int);
                    }
                } else {
                    if x < left {
                        left = x;
                        proof {
                            at = (y as int, at.1, at.2, at.3);
                        }
                    }
                    if x > right {
                        right = x;
                        proof {
                            at = (at.0, y as int, at.2, at.3);
                        }
                    }
                    if y > bottom {
                        bottom = y;
                        proof {
                            at = (at.0, at.1, at.2, x as int);
                        }
                    }
                }
            } else {
                assert(!image.visible(x as int, y as int));
            }
            x = x + 1;
        }
        y = y + 1;
    }
    if !found {
        return true;
    }
    assert(image.any_visible());
    assert(image.is_box(left as int, top as int, right as int, bottom as int));
    let covered: u64 = (right - left + 1) as u64;
    let rows: u64 = (bottom - top + 1) as u64;
    assert(covered * rows <= 1024 * 1024) by (nonlinear_arith)
        requires
            covered <= 1024,
            rows <= 1024,
    ;
    assert(width * height <= 1024 * 1024) by (nonlinear_arith)
        requires
            width <= 1024,
            height <= 1024,
    ;
    let r = covered * rows * 4 < width as u64 * height as u64 && (left + right) as u64 * 10
        < width as u64 * 6 && (top + bottom) as u64 * 10 < height as u64 * 6;
    proof {
        assert(r == image.in_corner(left as int, top as int, right as int, bottom as int));
        assert forall|l: int, t: int, ri: int, b: int| #[trigger]
            image.is_box(l, t, ri, b) implies (l, t, ri, b) == (
            left as int,
            top as int,
            right as int,
            bottom as int,
        ) by {
            box_is_unique(
                *image,
                (l, t, ri, b),
                (left as int, top as int, right as int, bottom as int),
            );
        }
    }
    r
}

/// A length scaled to another, rounded to the nearest, and at least one.
pub open spec fn scaled(length: int, size: int, longest: int) -> int {
    let rounded = (2 * length * size + longest) / (2 * longest);
    if rounded < 1 {
        1
    } else {
        rounded
    }
}

/// Where an icon is drawn in a square.
#[derive(Debug, Clone, Copy, PartialEq, Eq, Structural)]
pub struct IconFrame {
    pub left: i32,
    pub top: i32,
    pub width: i32,
    pub height: i32,
}

/// The frame of an icon in a square: as large as fits, in the middle.
pub open spec fn is_frame(frame: IconFrame, width: int, height: int, size: int) -> bool {
    let longest = if width > height {
        width
    } else {
        height
    };
    &&& frame.width == scaled(width, size, longest)
    &&& frame.height == scaled(height, size, longest)
    &&& frame.left == (size - frame.width) / 2
    &&& frame.top == (size - frame.height) / 2
}

proof fn scaled_range(length: int, size: int, longest: int)
    requires
        1 <= length <= longest,
        1 <= size,
    ensures
        1 <= scaled(length, size, longest) <= size,
        length == longest ==> scaled(length, size, longest) == size,
{
    assert(2 * length * size <= 2 * longest * size) by (nonlinear_arith)
        requires
            1 <= length <= longest,
            1 <= size,
    ;
    assert((2 * longest * size + longest) / (2 * longest) == size) by (nonlinear_arith)
        requires
            1 <= longest,
            1 <= size,
    ;
    assert(0 <= (2 * length * size + longest) / (2 * longest) <= (2 * longest * size + longest) / (2
        * longest)) by (nonlinear_arith)
        requires
            0 <= 2 * length * size <= 2 * longest * size,
            1 <= longest,
    ;
}

fn scale(length: i32, size: i32, longest: i32) -> (r: i32)
    requires
        1 <= length <= longest <= 1024,
        1 <= size <= 1024,
    ensures
        r == scaled(length as int, size as int, longest as int),
        1 <= r <= size,
{
    proof {
        scaled_range(length as int, size as int, longest as int);
    }
    assert(2 * length * size <= 2 * 1024 * 1024) by (nonlinear_arith)
        requires
            1 <= length <= 1024,
            1 <= size <= 1024,
    ;
    assert(0 <= 2 * length * size) by (nonlinear_arith)
        requires
            1 <= length,
            1 <= size,
    ;
    let rounded: i32 = (2 * length * size + longest) / (2 * longest);
    if rounded < 1 {
        1
    } else {
        rounded
    }
}

/// The frame of an icon in a square; none where the icon or the square is empty or too large.
pub fn icon_frame(width: i32, height: i32, size: i32) -> (r: Option<IconFrame>)
    ensures
        match r {
            Some(frame) => 1 <= width <= MAX_ICON_PIXELS && 1 <= height <= MAX_ICON_PIXELS && 1
                <= size <= MAX_ICON_PIXELS && is_frame(
                frame,
                width as int,
                height as int,
                size as int,
            ),
            None => !(1 <= width <= MAX_ICON_PIXELS && 1 <= height <= MAX_ICON_PIXELS && 1 <= size
                <= MAX_ICON_PIXELS),
        },
{
    if width < 1 || width > MAX_ICON_PIXELS || height < 1 || height > MAX_ICON_PIXELS || size < 1
        || size > MAX_ICON_PIXELS {
        return None;
    }
    let longest: i32 = if width > height {
        width
    } else {
        height
    };
    let drawn_width = scale(width, size, longest);
    let drawn_height = scale(height, size, longest);
    Some(
        IconFrame {
            left: (size - drawn_width) / 2,
            top: (size - drawn_height) / 2,
            width: drawn_width,
            height: drawn_height,
        },
    )
}

/// Half of a number without its fraction.
pub open spec fn half(n: int) -> int {
    if n < 0 {
        -((-n) / 2)
    } else {
        n / 2
    }
}

/// The size of an icon by the bitmaps that it has: without a colour bitmap the mask holds two
/// images, one above the other.
pub fn icon_dimensions(width: i32, height: i32, has_color: bool) -> (r: (i32, i32))
    ensures
        r.0 == width,
        r.1 == (if has_color {
            height as int
        } else {
            half(height as int)
        }),
{
    if has_color {
        (width, height)
    } else if height < 0 {
        (width, (-((-(height as i64)) / 2)) as i32)
    } else {
        (width, height / 2)
    }
}

/// The time in milliseconds that is left for a question to a window.
pub open spec fn left_ms(timeout: u64, elapsed: u64) -> int {
    if elapsed >= timeout {
        0
    } else if timeout - elapsed > u32::MAX {
        u32::MAX as int
    } else {
        timeout - elapsed
    }
}

pub fn remaining_ms(timeout: u64, elapsed: u64) -> (r: u32)
    ensures
        r == left_ms(timeout, elapsed),
{
    if elapsed >= timeout {
        0
    } else if timeout - elapsed > 0xffff_ffff {
        0xffff_ffff
    } else {
        (timeout - elapsed) as u32
    }
}

/// What a window is asked for its icon.
#[derive(Debug, Clone, Copy, PartialEq, Eq, Structural)]
pub enum WindowQuestion {
    /// Its large icon, by a message.
    Large,
    /// The icon of its class, without a message.
    Class,
    /// Its small icon, by a message.
    Small,
}

/// The next question to a window after one that gave no icon, with the time that is left for it.
pub open spec fn question_after(last: Option<WindowQuestion>, timeout: u64, elapsed: u64) -> Option<
    (WindowQuestion, int),
> {
    match last {
        Some(WindowQuestion::Large) => Some((WindowQuestion::Class, 0int)),
        Some(WindowQuestion::Small) => None,
        None => if elapsed < timeout {
            Some((WindowQuestion::Large, left_ms(timeout, elapsed)))
        } else {
            None
        },
        Some(WindowQuestion::Class) => if elapsed < timeout {
            Some((WindowQuestion::Small, left_ms(timeout, elapsed)))
        } else {
            None
        },
    }
}

/// The list of system images after another.
pub open spec fn list_after(last: Option<i32>) -> Option<i32> {
    match last {
        None => Some(4i32),
        Some(list) => if list == 4 {
            Some(2i32)
        } else if list == 2 {
            Some(0i32)
        } else {
            None
        },
    }
}

/// The next question to a window after one that gave no icon, and the time that a message may
/// take. A message is sent only while time is left.
pub fn next_question(last: Option<WindowQuestion>, timeout: u64, elapsed: u64) -> (r: Option<
    (WindowQuestion, u32),
>)
    ensures
        match last {
            None => if elapsed < timeout {
                r is Some && (r->0).0 == WindowQuestion::Large && (r->0).1 == left_ms(
                    timeout,
                    elapsed,
                )
            } else {
                r is None
            },
            Some(WindowQuestion::Large) => r == Some((WindowQuestion::Class, 0u32)),
            Some(WindowQuestion::Class) => if elapsed < timeout {
                r is Some && (r->0).0 == WindowQuestion::Small && (r->0).1 == left_ms(
                    timeout,
                    elapsed,
                )
            } else {
                r is None
            },
            Some(WindowQuestion::Small) => r is None,
        },
        question_after(last, timeout, elapsed) == match r {
            Some((question, left)) => Some((question, left as int)),
            None => None,
        },
{
    match last {
        Some(WindowQuestion::Large) => Some((WindowQuestion::Class, 0)),
        Some(WindowQuestion::Small) => None,
        _ => {
            let left = remaining_ms(timeout, elapsed);
            if left == 0 {
                None
            } else if last.is_none() {
                Some((WindowQuestion::Large, left))
            } else {
                Some((WindowQuestion::Small, left))
            }
        },
    }
}

/// The next list of system images to take the icon of a file from, after one that gave none: from
/// the largest images to the smallest. Nothing is looked up that is not wanted any more.
pub fn next_list(last: Option<i32>, wanted: bool) -> (r: Option<i32>)
    ensures
        r == (if !wanted {
            None
        } else {
            match last {
                None => Some(4i32),
                Some(list) => if list == 4 {
                    Some(2i32)
                } else if list == 2 {
                    Some(0i32)
                } else {
                    None
                },
            }
        }),
        wanted ==> r == list_after(last),
{
    if !wanted {
        return None;
    }
    match last {
        None => Some(4),
        Some(list) => if list == 4 {
            Some(2)
        } else if list == 2 {
            Some(0)
        } else {
            None
        },
    }
}

/// Whether the icon of a list is taken: it could be drawn, and it fills its place.
pub fn accepts_image(image: Option<&PixelImage>) -> (r: bool)
    requires
        image is Some ==> image->0.valid(),
    ensures
        r == (image is Some && !image->0.corner_only()),
{
    match image {
        Some(image) => !topleft_only(image),
        None => false,
    }
}

/// A drawn icon lies within its square and touches two opposite edges of it.
pub proof fn icon_fits_its_square(frame: IconFrame, width: int, height: int, size: int)
    requires
        1 <= width,
        1 <= height,
        1 <= size,
        is_frame(frame, width, height, size),
    ensures
        0 <= frame.left,
        0 <= frame.top,
        frame.left + frame.width <= size,
        frame.top + frame.height <= size,
        frame.width == size || frame.height == size,
{
    let longest = if width > height {
        width
    } else {
        height
    };
    scaled_range(width, size, longest);
    scaled_range(height, size, longest);
}

/// An image without a visible pixel counts as one that uses only the corner.
pub proof fn empty_image_is_corner_only(image: PixelImage)
    requires
        forall|x: int, y: int| !#[trigger] image.visible(x, y),
    ensures
        image.corner_only(),
{
}

/// A length is scaled to the nearest whole number of pixels, with halves rounded up, but to one at
/// least.
pub proof fn scaling_rounds_to_the_nearest(length: int, size: int, longest: int)
    requires
        1 <= length <= longest,
        1 <= size,
    ensures
        ({
            let r = scaled(length, size, longest);
            &&& r >= 1
            &&& r > 1 ==> (2 * r - 1) * longest <= 2 * length * size
            &&& 2 * length * size < (2 * r + 1) * longest
        }),
{
    let top = 2 * length * size + longest;
    let by = 2 * longest;
    let q = top / by;
    vstd::arithmetic::div_mod::lemma_fundamental_div_mod(top, by);
    vstd::arithmetic::div_mod::lemma_mod_bound(top, by);
    assert(by * q == 2 * (longest * q)) by (nonlinear_arith)
        requires
            by == 2 * longest,
    ;
    assert((2 * q - 1) * longest == 2 * (longest * q) - longest) by (nonlinear_arith);
    assert((2 * q + 1) * longest == 2 * (longest * q) + longest) by (nonlinear_arith);
    if q < 1 {
        assert((2 * q + 1) * longest <= 3 * longest) by (nonlinear_arith)
            requires
                q < 1,
                longest >= 1,
        ;
    }
}

/// An icon is drawn in the middle: the space before it and behind it differs by one pixel at most,
/// and the larger part is behind it. The longer side of the icon fills the square.
pub proof fn icon_is_in_the_middle(frame: IconFrame, width: int, height: int, size: int)
    requires
        1 <= width,
        1 <= height,
        1 <= size,
        is_frame(frame, width, height, size),
    ensures
        0 <= size - frame.width - 2 * frame.left <= 1,
        0 <= size - frame.height - 2 * frame.top <= 1,
        width >= height ==> frame.width == size,
        height >= width ==> frame.height == size,
        width >= height ==> frame.height == scaled(height, size, width),
        height >= width ==> frame.width == scaled(width, size, height),
{
    let longest = if width > height {
        width
    } else {
        height
    };
    scaled_range(width, size, longest);
    scaled_range(height, size, longest);
}

/// An image uses only the corner where its visible pixels fill less than a quarter of it, and their
/// middle lies within the first three tenths in both directions.
pub proof fn corner_of_an_image(image: PixelImage, left: int, top: int, right: int, bottom: int)
    requires
        image.is_box(left, top, right, bottom),
    ensures
        image.corner_only() <==> {
            &&& 4 * ((right - left + 1) * (bottom - top + 1)) < image.width * image.height
            &&& 5 * (left + right) < 3 * image.width
            &&& 5 * (top + bottom) < 3 * image.height
        },
{
    assert(image.any_visible()) by {
        let (x, y) = choose|x: int, y: int| #[trigger] image.visible(x, y) && x == left;
        assert(image.visible(x, y));
    }
    if exists|l: int, t: int, r: int, b: int| #[trigger]
        image.is_box(l, t, r, b) && image.in_corner(l, t, r, b) {
        let (l, t, r, b) = choose|l: int, t: int, r: int, b: int| #[trigger]
            image.is_box(l, t, r, b) && image.in_corner(l, t, r, b);
        box_is_unique(image, (l, t, r, b), (left, top, right, bottom));
    }
    assert((right - left + 1) * (bottom - top + 1) * 4 == 4 * ((right - left + 1) * (bottom - top
        + 1))) by (nonlinear_arith);
}

/// Halving drops the fraction: towards zero, and so alike for a number and its negative.
pub proof fn halves(n: int)
    ensures
        n >= 0 ==> 0 <= n - 2 * half(n) <= 1,
        n <= 0 ==> -1 <= n - 2 * half(n) <= 0,
        half(-n) == -half(n),
{
}

/// The time that is left and the time that has passed are the time that there is; none is left
/// where it is over.
pub proof fn time_that_is_left(timeout: u64, elapsed: u64)
    ensures
        elapsed <= timeout && timeout - elapsed <= 4294967295 ==> left_ms(timeout, elapsed) + elapsed
            == timeout,
        elapsed <= timeout && timeout - elapsed > 4294967295 ==> left_ms(timeout, elapsed)
            == 4294967295,
        left_ms(timeout, elapsed) == 0 <==> elapsed >= timeout,
        MAX_ICON_PIXELS == 1024,
{
}

/// A window is asked for its large icon, then for that of its class, and last for its small one. A
/// message is sent only while time is left, and may take no more than that; the class is looked at
/// in any case.
pub proof fn windows_are_asked_in_order(timeout: u64, elapsed: u64)
    ensures
        question_after(None, timeout, elapsed) is Some <==> elapsed < timeout,
        question_after(None, timeout, elapsed) matches Some((question, left)) ==> question
            == WindowQuestion::Large && 0 < left <= timeout - elapsed,
        question_after(Some(WindowQuestion::Large), timeout, elapsed) matches Some((question, left))
            && question == WindowQuestion::Class && left == 0,
        question_after(Some(WindowQuestion::Class), timeout, elapsed) is Some <==> elapsed < timeout,
        question_after(Some(WindowQuestion::Class), timeout, elapsed) matches Some((question, left))
            ==> question == WindowQuestion::Small && 0 < left <= timeout - elapsed,
        question_after(Some(WindowQuestion::Small), timeout, elapsed) is None,
{
}

/// The lists of system images are tried from the fourth over the second to the first, and no other.
pub proof fn lists_are_tried_in_order(last: i32)
    ensures
        list_after(None) == Some(4i32),
        list_after(Some(4)) == Some(2i32),
        list_after(Some(2)) == Some(0i32),
        last != 4 && last != 2 ==> list_after(Some(last)) is None,
{
}

}
