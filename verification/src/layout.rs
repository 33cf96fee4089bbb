//! One immutable layout is used by drawing, pagination and hit testing.
//!
//! Sizes are given in device independent pixels (DIP, 1/96 inch). Lengths are computed without
//! rounding in units of `1 / (2 * dpi)` DIP, in which every length of a layout is whole, and each
//! coordinate is rounded once, to the nearest physical pixel.

use vstd::prelude::*;

verus! {

/// Smallest icon, in DIP.
pub const MIN_ICON_DIP: u32 = 24;

/// Largest icon of a panel with a requested size, in DIP.
pub const MAX_ICON_DIP: u32 = 256;

/// Largest number of items.
pub const MAX_WINDOWS: usize = 4096;

/// A rectangle of physical pixels; the right and bottom edges lie outside.
#[derive(Debug, Clone, Copy, PartialEq, Eq, Structural)]
pub struct PixelRect {
    pub left: i32,
    pub top: i32,
    pub right: i32,
    pub bottom: i32,
}

impl Default for PixelRect {
    fn default() -> (r: Self)
        ensures
            r == (PixelRect { left: 0, top: 0, right: 0, bottom: 0 }),
    {
        PixelRect { left: 0, top: 0, right: 0, bottom: 0 }
    }
}

/// A value brought into the range of `i32`.
pub open spec fn clamped(v: int) -> int {
    if v > i32::MAX {
        i32::MAX as int
    } else if v < i32::MIN {
        i32::MIN as int
    } else {
        v
    }
}

fn clamp(v: i64) -> (r: i32)
    ensures
        r == clamped(v as int),
{
    if v > i32::MAX as i64 {
        i32::MAX
    } else if v < i32::MIN as i64 {
        i32::MIN
    } else {
        v as i32
    }
}

impl PixelRect {
    pub open spec fn spec_width(self) -> int {
        clamped(self.right - self.left)
    }

    pub open spec fn spec_height(self) -> int {
        clamped(self.bottom - self.top)
    }

    pub open spec fn covers(self, x: int, y: int) -> bool {
        self.left <= x < self.right && self.top <= y < self.bottom
    }

    pub fn width(self) -> (r: i32)
        ensures
            r == self.spec_width(),
    {
        clamp(self.right as i64 - self.left as i64)
    }

    pub fn height(self) -> (r: i32)
        ensures
            r == self.spec_height(),
    {
        clamp(self.bottom as i64 - self.top as i64)
    }

    pub fn contains(self, x: i32, y: i32) -> (r: bool)
        ensures
            r == self.covers(x as int, y as int),
    {
        x >= self.left && x < self.right && y >= self.top && y < self.bottom
    }
}

/// The monitor on which a panel is shown.
#[derive(Debug, Clone, Copy, PartialEq, Eq, Structural)]
pub struct MonitorSnapshot {
    pub identity: usize,
    pub screen: PixelRect,
    pub available: PixelRect,
    pub dpi: u32,
}

/// The resolution of a monitor: the same in both directions, and in the range that is supported.
pub fn monitor_dpi(x: u32, y: u32) -> (r: Option<u32>)
    ensures
        r == (if x == y && 48 <= x <= 960 {
            Some(x)
        } else {
            None
        }),
{
    if x == y && x >= 48 && x <= 960 {
        Some(x)
    } else {
        None
    }
}

impl MonitorSnapshot {
    /// The monitor as the system reports it; without the work area the panel may cover the whole
    /// screen. None where the resolution is not supported.
    pub fn capture(
        identity: usize,
        screen: PixelRect,
        work: PixelRect,
        use_work_area: bool,
        dpi_x: u32,
        dpi_y: u32,
    ) -> (r: Option<MonitorSnapshot>)
        ensures
            r == (if dpi_x == dpi_y && 48 <= dpi_x <= 960 {
                Some(
                    MonitorSnapshot {
                        identity,
                        screen,
                        available: if use_work_area {
                            work
                        } else {
                            screen
                        },
                        dpi: dpi_x,
                    },
                )
            } else {
                None
            }),
    {
        let available = if use_work_area {
            work
        } else {
            screen
        };
        match monitor_dpi(dpi_x, dpi_y) {
            Some(dpi) => Some(MonitorSnapshot { identity, screen, available, dpi }),
            None => None,
        }
    }
}

/// The requested sizes of a panel, in DIP; zero leaves a size open.
#[derive(Debug, Clone, Copy, PartialEq, Eq, Structural)]
pub struct LayoutOptions {
    pub panel_width: u32,
    pub panel_height: u32,
    pub icon_size: u32,
    pub icon_padding: u32,
    pub item_gap: u32,
    pub panel_padding: u32,
    pub max_width: u32,
    pub max_height: u32,
    pub max_columns: u32,
    pub name_height: u32,
}

/// A size that can conflict with the paddings.
#[derive(Debug, Clone, Copy, PartialEq, Eq, Structural)]
pub enum LayoutAxis {
    PanelWidth,
    PanelHeight,
    MaxWidth,
    MaxHeight,
}

/// Why no layout exists.
#[derive(Debug, Clone, Copy, PartialEq, Eq, Structural)]
pub enum LayoutError {
    /// A requested size is below the smallest panel.
    Conflict { axis: LayoutAxis, minimum: u64 },
    /// There is no item, too many items, or no such selection.
    Count,
    /// The pixel density is out of range.
    Dpi,
    /// The monitor has no available area.
    Monitor,
    /// The height does not hold the smallest icon.
    Height,
    /// The width does not hold one item.
    Width,
    /// The items of a row do not hold the smallest icon.
    Fit,
}

impl LayoutOptions {
    /// Smallest panel width.
    pub open spec fn minimum_width(self) -> int {
        MIN_ICON_DIP + 2 * (self.icon_padding + self.panel_padding)
    }

    /// Smallest panel height.
    pub open spec fn minimum_height(self) -> int {
        self.minimum_width() + self.name_height
    }

    /// The first size, in declaration order, that is given but below the smallest panel.
    pub open spec fn conflict(self) -> Option<LayoutError> {
        let width = self.minimum_width();
        let height = self.minimum_height();
        if 0 < self.panel_width < width {
            Some(LayoutError::Conflict { axis: LayoutAxis::PanelWidth, minimum: width as u64 })
        } else if 0 < self.panel_height < height {
            Some(LayoutError::Conflict { axis: LayoutAxis::PanelHeight, minimum: height as u64 })
        } else if 0 < self.max_width < width {
            Some(LayoutError::Conflict { axis: LayoutAxis::MaxWidth, minimum: width as u64 })
        } else if 0 < self.max_height < height {
            Some(LayoutError::Conflict { axis: LayoutAxis::MaxHeight, minimum: height as u64 })
        } else {
            None
        }
    }

    /// Rejects sizes that cannot hold the smallest icon within the paddings.
    pub fn validate(&self) -> (r: Result<(), LayoutError>)
        ensures
            r == (match self.conflict() {
                Some(error) => Err(error),
                None => Ok(()),
            }),
    {
        let width: u64 = MIN_ICON_DIP as u64 + 2 * (self.icon_padding as u64
            + self.panel_padding as u64);
        let height: u64 = width + self.name_height as u64;
        if self.panel_width != 0 && (self.panel_width as u64) < width {
            return Err(LayoutError::Conflict { axis: LayoutAxis::PanelWidth, minimum: width });
        }
        if self.panel_height != 0 && (self.panel_height as u64) < height {
            return Err(LayoutError::Conflict { axis: LayoutAxis::PanelHeight, minimum: height });
        }
        if self.max_width != 0 && (self.max_width as u64) < width {
            return Err(LayoutError::Conflict { axis: LayoutAxis::MaxWidth, minimum: width });
        }
        if self.max_height != 0 && (self.max_height as u64) < height {
            return Err(LayoutError::Conflict { axis: LayoutAxis::MaxHeight, minimum: height });
        }
        Ok(())
    }
}

// ---------------------------------------------------------------------------
// The model

/// A length in units of `1 / (2 * dpi)` DIP.
pub open spec fn units(dip: int, dpi: int) -> int {
    dip * (2 * dpi)
}

/// The nearest pixel of a length in units; halves are rounded up.
pub open spec fn px(length: int) -> int {
    (length + 96) / 192
}

/// The extent that the monitor and an optional limit allow.
pub open spec fn limit(pixels: int, maximum: int, dpi: int) -> int {
    if maximum == 0 || units(maximum, dpi) > pixels * 192 {
        pixels * 192
    } else {
        units(maximum, dpi)
    }
}

/// The extent that is asked for, within the allowed one.
pub open spec fn target(requested: int, maximum: int, dpi: int) -> int {
    if requested == 0 || units(requested, dpi) > maximum {
        maximum
    } else {
        units(requested, dpi)
    }
}

pub open spec fn smaller(a: int, b: int) -> int {
    if a <= b {
        a
    } else {
        b
    }
}

/// The inputs of a layout that decide its geometry. The selection is not among them.
pub struct Frame {
    pub options: LayoutOptions,
    pub width: int,
    pub height: int,
    pub dpi: int,
    pub count: int,
    pub name_height: int,
}

impl Frame {
    pub open spec fn u(self, dip: int) -> int {
        units(dip, self.dpi)
    }

    /// Whether a panel size is requested.
    pub open spec fn explicit(self) -> bool {
        self.options.panel_width != 0 || self.options.panel_height != 0
    }

    /// Width of the panel before it is fitted to its row.
    pub open spec fn outer_width(self) -> int {
        target(
            self.options.panel_width as int,
            limit(self.width, self.options.max_width as int, self.dpi),
            self.dpi,
        )
    }

    /// Height of the panel before it is fitted to its row.
    pub open spec fn outer_height(self) -> int {
        target(
            self.options.panel_height as int,
            limit(self.height, self.options.max_height as int, self.dpi),
            self.dpi,
        )
    }

    pub open spec fn inner_width(self) -> int {
        self.outer_width() - 2 * self.u(self.options.panel_padding as int)
    }

    /// Height left for an icon.
    pub open spec fn height_fit(self) -> int {
        self.outer_height() - 2 * self.u(self.options.panel_padding as int) - self.u(
            self.name_height,
        ) - 2 * self.u(self.options.icon_padding as int)
    }

    /// The icon size that decides how many items a row holds.
    pub open spec fn preferred(self) -> int {
        if self.explicit() {
            self.u(MIN_ICON_DIP as int)
        } else {
            smaller(
                smaller(self.u(self.options.icon_size as int), self.height_fit()),
                self.inner_width() - 2 * self.u(self.options.icon_padding as int),
            )
        }
    }

    /// Width of one item with the gap to the next.
    pub open spec fn cell(self) -> int {
        self.preferred() + 2 * self.u(self.options.icon_padding as int) + self.u(
            self.options.item_gap as int,
        )
    }

    /// Number of items that fit into a row. A cell is only negative where it is the whole row.
    pub open spec fn slots(self) -> int {
        if self.cell() > 0 {
            (self.inner_width() + self.u(self.options.item_gap as int)) / self.cell()
        } else if self.cell() < 0 {
            1
        } else {
            0
        }
    }

    /// Number of items on a page.
    pub open spec fn capacity(self) -> int {
        let columns = if self.options.max_columns == 0 {
            MAX_WINDOWS as int
        } else {
            self.options.max_columns as int
        };
        smaller(smaller(self.slots(), columns), self.count)
    }

    /// Width left for the items of a row.
    pub open spec fn row_space(self) -> int {
        self.inner_width() - (self.capacity() - 1) * self.u(self.options.item_gap as int)
    }

    /// Icon size in DIP.
    pub open spec fn icon(self) -> int {
        let width_fit = self.row_space() / (self.capacity() * (2 * self.dpi)) - 2
            * self.options.icon_padding;
        let height_fit = self.height_fit() / (2 * self.dpi);
        let natural = if self.explicit() {
            MAX_ICON_DIP as int
        } else {
            self.options.icon_size as int
        };
        smaller(smaller(width_fit, height_fit), natural)
    }

    /// Size of an item in DIP: the icon with its padding.
    pub open spec fn item(self) -> int {
        self.icon() + 2 * self.options.icon_padding
    }

    /// Width of a full row in units.
    pub open spec fn row_width(self) -> int {
        self.capacity() * self.u(self.item()) + (self.capacity() - 1) * self.u(
            self.options.item_gap as int,
        )
    }

    pub open spec fn final_width(self) -> int {
        if self.options.panel_width == 0 {
            self.row_width() + 2 * self.u(self.options.panel_padding as int)
        } else {
            self.outer_width()
        }
    }

    pub open spec fn final_height(self) -> int {
        if self.options.panel_height == 0 {
            self.u(self.item()) + 2 * self.u(self.options.panel_padding as int) + self.u(
                self.name_height,
            )
        } else {
            self.outer_height()
        }
    }

    /// Left edge of a full row.
    pub open spec fn row_left(self) -> int {
        (self.final_width() - self.row_width()) / 2
    }

    /// Top edge of the row.
    pub open spec fn row_top(self) -> int {
        (self.final_height() - self.u(self.name_height) - self.u(self.item())) / 2
    }

    /// Left edge of the item at a place of the page.
    pub open spec fn item_left(self, place: int) -> int {
        self.row_left() + place * (self.u(self.item()) + self.u(self.options.item_gap as int))
    }

    pub open spec fn item_rect(self, place: int) -> PixelRect {
        let x = self.item_left(place);
        let y = self.row_top();
        rect(px(x), px(y), px(x + self.u(self.item())), px(y + self.u(self.item())))
    }

    pub open spec fn icon_rect(self, place: int) -> PixelRect {
        let x = self.item_left(place) + self.u(self.options.icon_padding as int);
        let y = self.row_top() + self.u(self.options.icon_padding as int);
        rect(px(x), px(y), px(x + self.u(self.icon())), px(y + self.u(self.icon())))
    }

    /// The area for the name of the selected item.
    pub open spec fn footer(self) -> Option<PixelRect> {
        let padding = self.u(self.options.panel_padding as int);
        if self.name_height == 0 {
            None
        } else {
            Some(
                rect(
                    px(padding),
                    px(self.final_height() - padding - self.u(self.name_height)),
                    px(self.final_width() - padding),
                    px(self.final_height() - padding),
                ),
            )
        }
    }

    /// Whether the frame can hold a row, and where it fails.
    pub open spec fn problem(self) -> Option<LayoutError> {
        if self.height_fit() < self.u(MIN_ICON_DIP as int) {
            Some(LayoutError::Height)
        } else if self.slots() < 1 {
            Some(LayoutError::Width)
        } else if self.icon() < MIN_ICON_DIP {
            Some(LayoutError::Fit)
        } else {
            None
        }
    }

    /// The ranges of the inputs of a layout.
    pub open spec fn in_range(self) -> bool {
        &&& 1 <= self.width <= i32::MAX
        &&& 1 <= self.height <= i32::MAX
        &&& 48 <= self.dpi <= 960
        &&& 1 <= self.count <= MAX_WINDOWS
        &&& 0 <= self.name_height <= u32::MAX
    }
}

pub open spec fn rect(left: int, top: int, right: int, bottom: int) -> PixelRect {
    PixelRect { left: left as i32, top: top as i32, right: right as i32, bottom: bottom as i32 }
}

/// The frame of a layout request.
pub open spec fn frame(
    options: LayoutOptions,
    monitor: MonitorSnapshot,
    count: usize,
    name_height: u32,
) -> Frame {
    Frame {
        options,
        width: monitor.available.spec_width(),
        height: monitor.available.spec_height(),
        dpi: monitor.dpi as int,
        count: count as int,
        name_height: name_height as int,
    }
}

/// Why a layout request is refused.
pub open spec fn refusal(
    options: LayoutOptions,
    monitor: MonitorSnapshot,
    count: usize,
    selected: usize,
    name_height: u32,
) -> Option<LayoutError> {
    if options.conflict() is Some {
        options.conflict()
    } else if count == 0 || count > MAX_WINDOWS || selected >= count {
        Some(LayoutError::Count)
    } else if monitor.dpi < 48 || monitor.dpi > 960 {
        Some(LayoutError::Dpi)
    } else if monitor.available.spec_width() <= 0 || monitor.available.spec_height() <= 0 {
        Some(LayoutError::Monitor)
    } else {
        frame(options, monitor, count, name_height).problem()
    }
}

/// One item of a page: its index, its area and the area of its icon, relative to the panel.
#[derive(Debug, Clone, Copy, PartialEq, Eq, Structural)]
pub struct ItemRect {
    pub index: usize,
    pub outer: PixelRect,
    pub icon: PixelRect,
}

/// The panel's place on the screen: centred in the available area.
pub open spec fn panel_bounds(f: Frame, area: PixelRect) -> PixelRect {
    let left = clamped(area.left + (f.width - px(f.final_width())) / 2);
    let top = clamped(area.top + (f.height - px(f.final_height())) / 2);
    rect(
        left,
        top,
        clamped(left + px(f.final_width())),
        clamped(top + px(f.final_height())),
    )
}

/// The items of the page that holds the selected one.
pub open spec fn page_items(f: Frame, selected: int) -> Seq<ItemRect> {
    let first = (selected / f.capacity()) * f.capacity();
    let last = smaller(first + f.capacity(), f.count);
    Seq::new(
        (last - first) as nat,
        |place: int|
            ItemRect {
                index: (first + place) as usize,
                outer: f.item_rect(place),
                icon: f.icon_rect(place),
            },
    )
}

/// A complete layout of one page.
#[derive(Debug, Clone, PartialEq, Eq)]
pub struct LayoutSnapshot {
    pub monitor: MonitorSnapshot,
    pub bounds: PixelRect,
    pub icon_size: i32,
    pub capacity: usize,
    pub page: usize,
    pub items: Vec<ItemRect>,
    pub footer: Option<PixelRect>,
}

impl LayoutSnapshot {
    /// Whether this is the layout of the request.
    pub open spec fn is_layout(
        self,
        options: LayoutOptions,
        monitor: MonitorSnapshot,
        count: usize,
        selected: usize,
        name_height: u32,
    ) -> bool {
        let f = frame(options, monitor, count, name_height);
        &&& self.monitor == monitor
        &&& self.bounds == panel_bounds(f, monitor.available)
        &&& self.icon_size == px(f.u(f.icon()))
        &&& self.capacity == f.capacity()
        &&& self.page == selected as int / f.capacity()
        &&& self.items@ == page_items(f, selected as int)
        &&& self.footer == f.footer()
    }
}

// ---------------------------------------------------------------------------
// Arithmetic

proof fn product_bound(a: int, b: int, x: int, y: int)
    by (nonlinear_arith)
    requires
        0 <= a <= x,
        0 <= b <= y,
    ensures
        0 <= a * b <= x * y,
{
}

proof fn units_range(dip: int, dpi: int)
    requires
        0 <= dip,
        48 <= dpi <= 960,
    ensures
        96 * dip <= units(dip, dpi) <= 1920 * dip,
{
    assert(96 * dip <= dip * (2 * dpi) <= 1920 * dip) by (nonlinear_arith)
        requires
            0 <= dip,
            48 <= dpi <= 960,
    ;
}

proof fn units_even(dip: int, dpi: int)
    ensures
        units(dip, dpi) % 2 == 0,
{
    assert(dip * (2 * dpi) == 2 * (dip * dpi)) by (nonlinear_arith);
}

proof fn units_sum(a: int, b: int, dpi: int)
    ensures
        units(a, dpi) + units(b, dpi) == units(a + b, dpi),
{
    assert(a * (2 * dpi) + b * (2 * dpi) == (a + b) * (2 * dpi)) by (nonlinear_arith);
}

proof fn units_order(a: int, b: int, dpi: int)
    requires
        a <= b,
        dpi > 0,
    ensures
        units(a, dpi) <= units(b, dpi),
{
    assert(a * (2 * dpi) <= b * (2 * dpi)) by (nonlinear_arith)
        requires
            a <= b,
            dpi > 0,
    ;
}

fn to_units(dip: u32, dpi: u32) -> (r: i64)
    requires
        48 <= dpi <= 960,
    ensures
        r == units(dip as int, dpi as int),
        0 <= r <= 0x780_0000_0000,
{
    proof {
        product_bound(dip as int, 2 * dpi, 0xffff_ffff, 1920);
    }
    dip as i64 * (2 * dpi as i64)
}

fn limit_of(pixels: i32, maximum: u32, dpi: u32) -> (r: i64)
    requires
        48 <= dpi <= 960,
        pixels >= 1,
    ensures
        r == limit(pixels as int, maximum as int, dpi as int),
        0 <= r <= pixels * 192,
{
    let whole: i64 = pixels as i64 * 192;
    let bound: i64 = to_units(maximum, dpi);
    if maximum == 0 || bound > whole {
        whole
    } else {
        bound
    }
}

fn target_of(requested: u32, maximum: i64, dpi: u32) -> (r: i64)
    requires
        48 <= dpi <= 960,
        0 <= maximum,
    ensures
        r == target(requested as int, maximum as int, dpi as int),
        0 <= r <= maximum,
{
    let wanted: i64 = to_units(requested, dpi);
    if requested == 0 || wanted > maximum {
        maximum
    } else {
        wanted
    }
}

fn to_px(length: i64) -> (r: i32)
    requires
        0 <= length <= 192 * i32::MAX,
    ensures
        r == px(length as int),
        r >= 0,
{
    ((length + 96) / 192) as i32
}

proof fn quotient_fits(space: int, part: int)
    requires
        part > 0,
    ensures
        part * (space / part) <= space,
{
    vstd::arithmetic::div_mod::lemma_fundamental_div_mod(space, part);
    vstd::arithmetic::div_mod::lemma_mod_bound(space, part);
}

impl Frame {
    /// The row fits between the paddings, and the item into the height.
    pub proof fn row_fits(self)
        requires
            self.in_range(),
            self.problem() is None,
        ensures
            1 <= self.capacity() <= self.count,
            self.icon() >= MIN_ICON_DIP,
            0 < self.row_width() <= self.inner_width(),
            self.u(self.item()) <= self.height_fit() + 2 * self.u(self.options.icon_padding as int),
            self.u(self.item()) == self.u(self.icon()) + 2 * self.u(
                self.options.icon_padding as int,
            ),
            self.final_width() <= self.outer_width() <= 192 * self.width,
            self.final_height() <= self.outer_height() <= 192 * self.height,
            self.row_width() + 2 * self.u(self.options.panel_padding as int) <= self.final_width(),
            self.u(self.item()) + 2 * self.u(self.options.panel_padding as int) + self.u(
                self.name_height,
            ) <= self.final_height(),
    {
        let cap = self.capacity();
        let ip = self.options.icon_padding as int;
        let share = cap * (2 * self.dpi);
        let item = self.item();
        assert(share > 0) by (nonlinear_arith)
            requires
                cap >= 1,
                self.dpi >= 48,
                share == cap * (2 * self.dpi),
        ;
        quotient_fits(self.row_space(), share);
        let fitted = self.row_space() / share;
        assert(item <= fitted);
        assert(share * item <= share * fitted) by (nonlinear_arith)
            requires
                share > 0,
                item <= fitted,
        ;
        assert(share * item == cap * (item * (2 * self.dpi))) by (nonlinear_arith)
            requires
                share == cap * (2 * self.dpi),
        ;
        units_range(item, self.dpi);
        units_range(self.options.item_gap as int, self.dpi);
        product_bound(cap - 1, self.u(self.options.item_gap as int), cap - 1, self.u(
            self.options.item_gap as int,
        ));
        assert(cap * self.u(item) > 0) by (nonlinear_arith)
            requires
                cap >= 1,
                self.u(item) > 0,
        ;
        units_sum(self.icon(), ip, self.dpi);
        units_sum(self.icon() + ip, ip, self.dpi);
        quotient_fits(self.height_fit(), 2 * self.dpi);
        let tall = self.height_fit() / (2 * self.dpi);
        units_order(self.icon(), tall, self.dpi);
        assert(units(tall, self.dpi) == (2 * self.dpi) * tall) by (nonlinear_arith)
            requires
                units(tall, self.dpi) == tall * (2 * self.dpi),
        ;
    }

    /// The gap and width of the row are whole halves of the panel: the row is exactly centred.
    proof fn centred(self)
        requires
            self.in_range(),
            self.problem() is None,
        ensures
            (self.final_width() - self.row_width()) % 2 == 0,
            (self.final_height() - self.u(self.name_height) - self.u(self.item())) % 2 == 0,
    {
        let cap = self.capacity();
        units_even(self.item(), self.dpi);
        units_even(self.options.item_gap as int, self.dpi);
        units_even(self.options.panel_padding as int, self.dpi);
        units_even(self.name_height, self.dpi);
        units_even(self.options.panel_width as int, self.dpi);
        units_even(self.options.panel_height as int, self.dpi);
        units_even(self.options.max_width as int, self.dpi);
        units_even(self.options.max_height as int, self.dpi);
        let a = self.u(self.item()) / 2;
        let b = self.u(self.options.item_gap as int) / 2;
        assert(cap * (2 * a) == 2 * (cap * a)) by (nonlinear_arith);
        assert((cap - 1) * (2 * b) == 2 * ((cap - 1) * b)) by (nonlinear_arith);
    }

    /// Every item of a page lies within the row.
    proof fn item_within_row(self, place: int)
        requires
            self.in_range(),
            self.problem() is None,
            0 <= place < self.capacity(),
        ensures
            self.row_left() <= self.item_left(place),
            self.item_left(place) + self.u(self.item()) <= self.row_left() + self.row_width(),
    {
        let cap = self.capacity();
        let a = self.u(self.item());
        let b = self.u(self.options.item_gap as int);
        units_range(self.item(), self.dpi);
        units_range(self.options.item_gap as int, self.dpi);
        assert(0 <= place * (a + b)) by (nonlinear_arith)
            requires
                place >= 0,
                a >= 0,
                b >= 0,
        ;
        assert(place * (a + b) + a <= cap * a + (cap - 1) * b) by (nonlinear_arith)
            requires
                0 <= place <= cap - 1,
                a >= 0,
                b >= 0,
        ;
    }
}

impl LayoutSnapshot {
    /// Computes the layout of the page that holds the selected item.
    #[verifier::rlimit(60)]
    pub fn calculate(
        options: &LayoutOptions,
        monitor: MonitorSnapshot,
        count: usize,
        selected: usize,
        name_height: u32,
    ) -> (r: Result<Self, LayoutError>)
        ensures
            match r {
                Ok(layout) => refusal(*options, monitor, count, selected, name_height) is None
                    && layout.is_layout(*options, monitor, count, selected, name_height),
                Err(error) => refusal(*options, monitor, count, selected, name_height) == Some(
                    error,
                ),
            },
    {
        match options.validate() {
            Err(error) => {
                return Err(error);
            },
            Ok(()) => {},
        }
        if count == 0 || count > MAX_WINDOWS || selected >= count {
            return Err(LayoutError::Count);
        }
        if monitor.dpi < 48 || monitor.dpi > 960 {
            return Err(LayoutError::Dpi);
        }
        let area = monitor.available;
        let area_width: i32 = area.width();
        let area_height: i32 = area.height();
        if area_width <= 0 || area_height <= 0 {
            return Err(LayoutError::Monitor);
        }
        let dpi = monitor.dpi;
        let ghost f = frame(*options, monitor, count, name_height);
        assert(f.in_range());
        let width: i64 = target_of(
            options.panel_width,
            limit_of(area_width, options.max_width, dpi),
            dpi,
        );
        let height: i64 = target_of(
            options.panel_height,
            limit_of(area_height, options.max_height, dpi),
            dpi,
        );
        let panel_padding: i64 = to_units(options.panel_padding, dpi);
        let icon_padding: i64 = to_units(options.icon_padding, dpi);
        let gap: i64 = to_units(options.item_gap, dpi);
        let name: i64 = to_units(name_height, dpi);
        let inner_width: i64 = width - 2 * panel_padding;
        let height_fit: i64 = height - 2 * panel_padding - name - 2 * icon_padding;
        if height_fit < to_units(MIN_ICON_DIP, dpi) {
            return Err(LayoutError::Height);
        }
        let explicit = options.panel_width != 0 || options.panel_height != 0;
        let preferred: i64 = if explicit {
            to_units(MIN_ICON_DIP, dpi)
        } else {
            let wanted: i64 = to_units(options.icon_size, dpi);
            let fitted: i64 = if wanted <= height_fit {
                wanted
            } else {
                height_fit
            };
            let room: i64 = inner_width - 2 * icon_padding;
            if fitted <= room {
                fitted
            } else {
                room
            }
        };
        assert(preferred == f.preferred());
        let cell: i64 = preferred + 2 * icon_padding + gap;
        assert(cell == f.cell());
        let slots: i64 = if cell > 0 {
            let space: i64 = inner_width + gap;
            if space < cell {
                proof {
                    if space >= 0 {
                        vstd::arithmetic::div_mod::lemma_basic_div(space as int, cell as int);
                    } else {
                        quotient_fits(space as int, cell as int);
                        assert(space as int / cell as int <= 0) by (nonlinear_arith)
                            requires
                                cell as int * (space as int / cell as int) <= space,
                                space < 0,
                                cell > 0,
                        ;
                    }
                }
                0
            } else {
                space / cell
            }
        } else if cell < 0 {
            1
        } else {
            0
        };
        assert(slots < 1 <==> f.slots() < 1);
        if slots < 1 {
            return Err(LayoutError::Width);
        }
        assert(slots == f.slots());
        let columns: i64 = if options.max_columns == 0 {
            MAX_WINDOWS as i64
        } else {
            options.max_columns as i64
        };
        let fewer: i64 = if slots <= columns {
            slots
        } else {
            columns
        };
        let capacity: i64 = if fewer <= count as i64 {
            fewer
        } else {
            count as i64
        };
        assert(capacity == f.capacity() && 1 <= capacity <= 4096);
        proof {
            product_bound(capacity - 1, gap as int, 4095, 0x780_0000_0000);
            product_bound(capacity as int, 2 * dpi, 4096, 1920);
            assert(0 < capacity * (2 * dpi)) by (nonlinear_arith)
                requires
                    capacity >= 1,
                    dpi >= 48,
            ;
        }
        let row_space: i64 = inner_width - (capacity - 1) * gap;
        let share: i64 = capacity * (2 * dpi as i64);
        let width_fit: i64 = floor_div(row_space, share) - 2 * options.icon_padding as i64;
        let tall: i64 = height_fit / (2 * dpi as i64);
        let natural: i64 = if explicit {
            MAX_ICON_DIP as i64
        } else {
            options.icon_size as i64
        };
        let narrow: i64 = if width_fit <= tall {
            width_fit
        } else {
            tall
        };
        let icon: i64 = if narrow <= natural {
            narrow
        } else {
            natural
        };
        assert(icon == f.icon());
        if icon < MIN_ICON_DIP as i64 {
            return Err(LayoutError::Fit);
        }
        proof {
            f.row_fits();
            f.centred();
            units_range(f.icon(), f.dpi);
            units_range(f.item(), f.dpi);
        }
        let icon_units: i64 = to_units(icon as u32, dpi);
        let item_units: i64 = icon_units + 2 * icon_padding;
        assert(item_units == f.u(f.item()));
        proof {
            product_bound(capacity as int, item_units as int, 4096, 192 * i32::MAX);
        }
        let row_width: i64 = capacity * item_units + (capacity - 1) * gap;
        assert(row_width == f.row_width());
        let final_width: i64 = if options.panel_width == 0 {
            row_width + 2 * panel_padding
        } else {
            width
        };
        let final_height: i64 = if options.panel_height == 0 {
            item_units + 2 * panel_padding + name
        } else {
            height
        };
        assert(final_width == f.final_width() && final_height == f.final_height());
        let physical_width: i32 = to_px(final_width);
        let physical_height: i32 = to_px(final_height);
        let left: i32 = clamp(area.left as i64 + (area_width as i64 - physical_width as i64) / 2);
        let top: i32 = clamp(area.top as i64 + (area_height as i64 - physical_height as i64) / 2);
        let bounds = PixelRect {
            left,
            top,
            right: clamp(left as i64 + physical_width as i64),
            bottom: clamp(top as i64 + physical_height as i64),
        };
        let per_page: usize = capacity as usize;
        let page: usize = selected / per_page;
        proof {
            quotient_fits(selected as int, per_page as int);
            assert(page * per_page == per_page * page) by (nonlinear_arith);
        }
        let first: usize = page * per_page;
        let last: usize = if first + per_page <= count {
            first + per_page
        } else {
            count
        };
        let row_left: i64 = (final_width - row_width) / 2;
        let row_top: i64 = (final_height - name - item_units) / 2;
        let mut items: Vec<ItemRect> = Vec::new();
        let mut place: usize = 0;
        while place < last - first
            invariant
                f == frame(*options, monitor, count, name_height),
                f.in_range(),
                f.problem() is None,
                first == (selected as int / f.capacity()) * f.capacity(),
                last == smaller(first + f.capacity(), f.count),
                first <= last <= count <= MAX_WINDOWS,
                place <= last - first,
                last - first <= f.capacity(),
                per_page == f.capacity(),
                row_left == f.row_left(),
                row_top == f.row_top(),
                item_units == f.u(f.item()),
                icon_units == f.u(f.icon()),
                gap == f.u(options.item_gap as int),
                icon_padding == f.u(options.icon_padding as int),
                0 <= gap <= 0x780_0000_0000,
                0 <= icon_padding <= 0x780_0000_0000,
                0 <= icon_units,
                items@.len() == place,
                items@ == page_items(f, selected as int).take(place as int),
            decreases last - first - place,
        {
            proof {
                f.row_fits();
                f.item_within_row(place as int);
                units_range(f.item(), f.dpi);
                product_bound(
                    place as int,
                    item_units + gap,
                    4096,
                    192 * i32::MAX + 0x780_0000_0000,
                );
            }
            let x: i64 = row_left + place as i64 * (item_units + gap);
            assert(x == f.item_left(place as int));
            let item = ItemRect {
                index: first + place,
                outer: PixelRect {
                    left: to_px(x),
                    top: to_px(row_top),
                    right: to_px(x + item_units),
                    bottom: to_px(row_top + item_units),
                },
                icon: PixelRect {
                    left: to_px(x + icon_padding),
                    top: to_px(row_top + icon_padding),
                    right: to_px(x + icon_padding + icon_units),
                    bottom: to_px(row_top + icon_padding + icon_units),
                },
            };
            assert(item == page_items(f, selected as int)[place as int]);
            items.push(item);
            place += 1;
        }
        proof {
            assert(page_items(f, selected as int).take(place as int) == page_items(
                f,
                selected as int,
            ));
            units_range(options.panel_padding as int, f.dpi);
        }
        let footer = if name_height == 0 {
            None
        } else {
            Some(
                PixelRect {
                    left: to_px(panel_padding),
                    top: to_px(final_height - panel_padding - name),
                    right: to_px(final_width - panel_padding),
                    bottom: to_px(final_height - panel_padding),
                },
            )
        };
        Ok(
            LayoutSnapshot {
                monitor,
                bounds,
                icon_size: to_px(icon_units),
                capacity: per_page,
                page,
                items,
                footer,
            },
        )
    }

    /// The index of the item under a point of the screen.
    pub fn hit_test(&self, screen_x: i32, screen_y: i32) -> (r: Option<usize>)
        ensures
            r == hit(self.items@, screen_x - self.bounds.left, screen_y - self.bounds.top, 0),
    {
        let x: i64 = screen_x as i64 - self.bounds.left as i64;
        let y: i64 = screen_y as i64 - self.bounds.top as i64;
        if x > i32::MAX as i64 || x < i32::MIN as i64 || y > i32::MAX as i64 || y < i32::MIN as i64 {
            proof {
                no_hit(self.items@, x as int, y as int, 0);
            }
            return None;
        }
        let mut i: usize = 0;
        while i < self.items.len()
            invariant
                i <= self.items@.len(),
                x == screen_x - self.bounds.left,
                y == screen_y - self.bounds.top,
                i32::MIN <= x <= i32::MAX,
                i32::MIN <= y <= i32::MAX,
                hit(self.items@, x as int, y as int, 0) == hit(
                    self.items@,
                    x as int,
                    y as int,
                    i as int,
                ),
            decreases self.items@.len() - i,
        {
            if self.items[i].outer.contains(x as i32, y as i32) {
                return Some(self.items[i].index);
            }
            i += 1;
        }
        None
    }
}

/// The index of the first item, from place `from` on, that covers a point of the panel.
pub open spec fn hit(items: Seq<ItemRect>, x: int, y: int, from: int) -> Option<usize>
    decreases items.len() - from,
{
    if from < 0 || from >= items.len() {
        None
    } else if items[from].outer.covers(x, y) {
        Some(items[from].index)
    } else {
        hit(items, x, y, from + 1)
    }
}

proof fn no_hit(items: Seq<ItemRect>, x: int, y: int, from: int)
    requires
        x > i32::MAX || x < i32::MIN || y > i32::MAX || y < i32::MIN,
    ensures
        hit(items, x, y, from) is None,
    decreases items.len() - from,
{
    if 0 <= from < items.len() {
        no_hit(items, x, y, from + 1);
    }
}

fn floor_div(a: i64, b: i64) -> (r: i64)
    requires
        0 < b <= 0x1000_0000,
        -0x1000_0000_0000_0000 <= a <= 0x1000_0000_0000_0000,
    ensures
        r == a as int / b as int,
        -0x1000_0000_0000_0000 <= r <= 0x1000_0000_0000_0000,
{
    let lifted: i128 = a as i128 + b as i128 * 0x1000_0000_0000_0000;
    proof {
        product_bound(b as int, 0x1000_0000_0000_0000, 0x1000_0000, 0x1000_0000_0000_0000);
        assert(lifted >= 0) by (nonlinear_arith)
            requires
                lifted == a + b * 0x1000_0000_0000_0000,
                b >= 1,
                a >= -0x1000_0000_0000_0000,
        ;
        vstd::arithmetic::div_mod::lemma_div_multiples_vanish_fancy(
            0x1000_0000_0000_0000,
            0,
            b as int,
        );
        vstd::arithmetic::div_mod::lemma_hoist_over_denominator(
            a as int,
            0x1000_0000_0000_0000,
            b as nat,
        );
        assert(lifted as int / b as int == a as int / b as int + 0x1000_0000_0000_0000);
        quotient_fits(a as int, b as int);
        assert(a as int / b as int <= 0x1000_0000_0000_0000) by (nonlinear_arith)
            requires
                b as int * (a as int / b as int) <= a,
                a <= 0x1000_0000_0000_0000,
                b >= 1,
        ;
        vstd::arithmetic::div_mod::lemma_div_pos_is_pos(lifted as int, b as int);
    }
    let shifted: i128 = lifted / b as i128;
    (shifted - 0x1000_0000_0000_0000) as i64
}

// ---------------------------------------------------------------------------
// Laws of a layout

proof fn px_order(a: int, b: int)
    requires
        a <= b,
    ensures
        px(a) <= px(b),
        a + 192 <= b ==> px(a) < px(b),
{
}

/// Every page has the same panel, icon size, capacity and name area, whatever is selected.
pub proof fn pages_share_their_geometry(
    a: LayoutSnapshot,
    b: LayoutSnapshot,
    options: LayoutOptions,
    monitor: MonitorSnapshot,
    count: usize,
    first: usize,
    second: usize,
    name_height: u32,
)
    requires
        a.is_layout(options, monitor, count, first, name_height),
        b.is_layout(options, monitor, count, second, name_height),
    ensures
        a.bounds == b.bounds,
        a.icon_size == b.icon_size,
        a.capacity == b.capacity,
        a.footer == b.footer,
{
}

/// The panel lies within the available area of the monitor.
pub proof fn panel_within_area(
    layout: LayoutSnapshot,
    options: LayoutOptions,
    monitor: MonitorSnapshot,
    count: usize,
    selected: usize,
    name_height: u32,
)
    requires
        refusal(options, monitor, count, selected, name_height) is None,
        layout.is_layout(options, monitor, count, selected, name_height),
    ensures
        monitor.available.left <= layout.bounds.left,
        monitor.available.top <= layout.bounds.top,
        layout.bounds.right <= monitor.available.right,
        layout.bounds.bottom <= monitor.available.bottom,
        layout.bounds.left < layout.bounds.right,
        layout.bounds.top < layout.bounds.bottom,
{
    let f = frame(options, monitor, count, name_height);
    f.row_fits();
    units_range(f.item(), f.dpi);
    units_range(options.panel_padding as int, f.dpi);
    units_range(name_height as int, f.dpi);
    units_range(f.options.item_gap as int, f.dpi);
    product_bound(f.capacity() - 1, f.u(options.item_gap as int), f.capacity() - 1, f.u(
        options.item_gap as int,
    ));
    assert(f.u(f.item()) <= f.capacity() * f.u(f.item())) by (nonlinear_arith)
        requires
            f.capacity() >= 1,
            f.u(f.item()) >= 0,
    ;
}

/// The page holds at most as many items as its capacity, the selected one among them.
pub proof fn page_holds_the_selection(
    layout: LayoutSnapshot,
    options: LayoutOptions,
    monitor: MonitorSnapshot,
    count: usize,
    selected: usize,
    name_height: u32,
)
    requires
        refusal(options, monitor, count, selected, name_height) is None,
        layout.is_layout(options, monitor, count, selected, name_height),
    ensures
        1 <= layout.items@.len() <= layout.capacity,
        exists|place: int|
            0 <= place < layout.items@.len() && (#[trigger] layout.items@[place]).index == selected,
{
    let f = frame(options, monitor, count, name_height);
    f.row_fits();
    let cap = f.capacity();
    let page = selected as int / cap;
    vstd::arithmetic::div_mod::lemma_fundamental_div_mod(selected as int, cap);
    vstd::arithmetic::div_mod::lemma_mod_bound(selected as int, cap);
    assert(cap * page == page * cap) by (nonlinear_arith);
    let place = selected as int % cap;
    assert(page_items(f, selected as int)[place].index == selected);
    assert(layout.items@[place].index == selected);
}

/// The areas of a page's items: each icon lies within its item, each item within the panel, and
/// each item ends before the next one begins.
pub proof fn items_are_apart(
    layout: LayoutSnapshot,
    options: LayoutOptions,
    monitor: MonitorSnapshot,
    count: usize,
    selected: usize,
    name_height: u32,
    place: int,
)
    requires
        refusal(options, monitor, count, selected, name_height) is None,
        layout.is_layout(options, monitor, count, selected, name_height),
        0 <= place < layout.items@.len(),
    ensures
        ({
            let item = layout.items@[place];
            &&& 0 <= item.outer.left <= item.icon.left < item.icon.right <= item.outer.right
                <= layout.bounds.spec_width()
            &&& 0 <= item.outer.top <= item.icon.top < item.icon.bottom <= item.outer.bottom
                <= layout.bounds.spec_height()
            &&& place + 1 < layout.items@.len() ==> item.outer.right
                <= layout.items@[place + 1].outer.left
        }),
{
    let f = frame(options, monitor, count, name_height);
    f.row_fits();
    f.centred();
    panel_within_area(layout, options, monitor, count, selected, name_height);
    page_holds_the_selection(layout, options, monitor, count, selected, name_height);
    f.item_within_row(place);
    units_range(options.panel_padding as int, f.dpi);
    units_range(options.icon_padding as int, f.dpi);
    units_range(options.item_gap as int, f.dpi);
    units_range(name_height as int, f.dpi);
    units_range(f.icon(), f.dpi);
    units_range(f.item(), f.dpi);
    let x = f.item_left(place);
    let y = f.row_top();
    let ip = f.u(options.icon_padding as int);
    let size = f.u(f.icon());
    px_order(0, x);
    px_order(x, x + ip);
    px_order(x + ip, x + ip + size);
    px_order(x + ip + size, x + f.u(f.item()));
    px_order(x + f.u(f.item()), f.final_width());
    px_order(0, y);
    px_order(y, y + ip);
    px_order(y + ip, y + ip + size);
    px_order(y + ip + size, y + f.u(f.item()));
    px_order(y + f.u(f.item()), f.final_height());
    px_order(f.final_width(), 192 * f.width);
    px_order(f.final_height(), 192 * f.height);
    assert(f.item_left(place + 1) == x + (f.u(f.item()) + f.u(options.item_gap as int))) by {
        let step = f.u(f.item()) + f.u(options.item_gap as int);
        assert((place + 1) * step == place * step + step) by (nonlinear_arith);
    }
    if place + 1 < layout.items@.len() {
        f.item_within_row(place + 1);
        px_order(x + f.u(f.item()), f.item_left(place + 1));
        px_order(f.item_left(place + 1), f.final_width());
    }
}

/// A point at the top left corner of an item hits that item.
pub proof fn item_corner_hits_the_item(
    layout: LayoutSnapshot,
    options: LayoutOptions,
    monitor: MonitorSnapshot,
    count: usize,
    selected: usize,
    name_height: u32,
    place: int,
)
    requires
        refusal(options, monitor, count, selected, name_height) is None,
        layout.is_layout(options, monitor, count, selected, name_height),
        0 <= place < layout.items@.len(),
    ensures
        ({
            let item = layout.items@[place];
            hit(layout.items@, item.outer.left as int, item.outer.top as int, 0) == Some(item.index)
        }),
{
    items_are_apart(layout, options, monitor, count, selected, name_height, place);
    corner_hits(layout, options, monitor, count, selected, name_height, place, 0);
}

proof fn corner_hits(
    layout: LayoutSnapshot,
    options: LayoutOptions,
    monitor: MonitorSnapshot,
    count: usize,
    selected: usize,
    name_height: u32,
    place: int,
    from: int,
)
    requires
        refusal(options, monitor, count, selected, name_height) is None,
        layout.is_layout(options, monitor, count, selected, name_height),
        0 <= from <= place < layout.items@.len(),
        layout.items@[place].outer.left < layout.items@[place].outer.right,
        layout.items@[place].outer.top < layout.items@[place].outer.bottom,
    ensures
        ({
            let item = layout.items@[place];
            hit(layout.items@, item.outer.left as int, item.outer.top as int, from) == Some(
                item.index,
            )
        }),
    decreases place - from,
{
    if from < place {
        ends_before(layout, options, monitor, count, selected, name_height, from, place);
        corner_hits(layout, options, monitor, count, selected, name_height, place, from + 1);
    }
}

proof fn ends_before(
    layout: LayoutSnapshot,
    options: LayoutOptions,
    monitor: MonitorSnapshot,
    count: usize,
    selected: usize,
    name_height: u32,
    a: int,
    b: int,
)
    requires
        refusal(options, monitor, count, selected, name_height) is None,
        layout.is_layout(options, monitor, count, selected, name_height),
        0 <= a < b < layout.items@.len(),
    ensures
        layout.items@[a].outer.right <= layout.items@[b].outer.left,
    decreases b - a,
{
    items_are_apart(layout, options, monitor, count, selected, name_height, a);
    if a + 1 < b {
        items_are_apart(layout, options, monitor, count, selected, name_height, a + 1);
        ends_before(layout, options, monitor, count, selected, name_height, a + 1, b);
    }
}

/// A point outside the panel hits nothing.
pub proof fn outside_hits_nothing(
    layout: LayoutSnapshot,
    options: LayoutOptions,
    monitor: MonitorSnapshot,
    count: usize,
    selected: usize,
    name_height: u32,
    x: int,
    y: int,
    from: int,
)
    requires
        refusal(options, monitor, count, selected, name_height) is None,
        layout.is_layout(options, monitor, count, selected, name_height),
        x < 0 || y < 0 || x >= layout.bounds.spec_width() || y >= layout.bounds.spec_height(),
    ensures
        hit(layout.items@, x, y, from) is None,
    decreases layout.items@.len() - from,
{
    if 0 <= from < layout.items@.len() {
        items_are_apart(layout, options, monitor, count, selected, name_height, from);
        outside_hits_nothing(
            layout,
            options,
            monitor,
            count,
            selected,
            name_height,
            x,
            y,
            from + 1,
        );
    }
}

/// The panel is centred in the available area: the space that is left on both sides of it is the
/// same, or one pixel more on the right and below.
pub proof fn panel_is_centred(
    layout: LayoutSnapshot,
    options: LayoutOptions,
    monitor: MonitorSnapshot,
    count: usize,
    selected: usize,
    name_height: u32,
)
    requires
        refusal(options, monitor, count, selected, name_height) is None,
        layout.is_layout(options, monitor, count, selected, name_height),
        monitor.available.right - monitor.available.left <= i32::MAX,
        monitor.available.bottom - monitor.available.top <= i32::MAX,
    ensures
        ({
            let left = layout.bounds.left - monitor.available.left;
            let right = monitor.available.right - layout.bounds.right;
            let above = layout.bounds.top - monitor.available.top;
            let below = monitor.available.bottom - layout.bounds.bottom;
            &&& 0 <= left
            &&& 0 <= right - left <= 1
            &&& 0 <= above
            &&& 0 <= below - above <= 1
        }),
{
    panel_within_area(layout, options, monitor, count, selected, name_height);
    let f = frame(options, monitor, count, name_height);
    f.row_fits();
    px_order(f.final_width(), 192 * f.width);
    px_order(f.final_height(), 192 * f.height);
}

/// Whether a coordinate is the pixel nearest to a length, of which 192 units are one pixel; halves
/// are rounded up.
pub open spec fn is_nearest(pixel: int, length: int) -> bool {
    192 * pixel - 96 <= length < 192 * pixel + 96
}

/// Whether a coordinate is the pixel nearest to half of a length.
pub open spec fn is_nearest_to_half(pixel: int, twice: int) -> bool {
    384 * pixel - 192 <= twice < 384 * pixel + 192
}

/// Whether a size is the smallest of the available pixels, the requested size and the largest size,
/// which are given in DIP; zero leaves the two open.
pub open spec fn is_extent(
    size: int,
    pixels: int,
    requested: u32,
    largest: u32,
    dpi: u32,
) -> bool {
    &&& size <= 192 * pixels
    &&& requested != 0 ==> size <= requested * (2 * dpi)
    &&& largest != 0 ==> size <= largest * (2 * dpi)
    &&& {
        ||| size == 192 * pixels
        ||| requested != 0 && size == requested * (2 * dpi)
        ||| largest != 0 && size == largest * (2 * dpi)
    }
}

/// What decides the geometry of a panel: the size of the icons in DIP, and the size that the panel
/// may have, in units of which `2 * dpi` are one DIP and 192 one pixel.
pub struct PanelSize {
    pub icon: int,
    pub width: int,
    pub height: int,
}

impl PanelSize {
    /// The size of an item: its icon with the padding around it.
    pub open spec fn item(self, options: LayoutOptions, dpi: u32) -> int {
        (self.icon + 2 * options.icon_padding) * (2 * dpi)
    }

    /// The width of a row: its items with the gaps between them.
    pub open spec fn row(self, options: LayoutOptions, dpi: u32, capacity: int) -> int {
        capacity * self.item(options, dpi) + (capacity - 1) * (options.item_gap * (2 * dpi))
    }

    /// Whether the row and the name fit into the panel, with the padding around them.
    pub open spec fn fits(
        self,
        options: LayoutOptions,
        dpi: u32,
        capacity: int,
        name_height: u32,
    ) -> bool {
        let padding = options.panel_padding * (2 * dpi);
        &&& self.row(options, dpi, capacity) + 2 * padding <= self.width
        &&& self.item(options, dpi) + 2 * padding + name_height * (2 * dpi) <= self.height
    }

    /// The width of the panel: the requested one, or that of the row with the padding.
    pub open spec fn panel_width(self, options: LayoutOptions, dpi: u32, capacity: int) -> int {
        if options.panel_width == 0 {
            self.row(options, dpi, capacity) + 2 * (options.panel_padding * (2 * dpi))
        } else {
            self.width
        }
    }

    /// The height of the panel: the requested one, or that of an item and the name with the
    /// padding.
    pub open spec fn panel_height(self, options: LayoutOptions, dpi: u32, name_height: u32) -> int {
        if options.panel_height == 0 {
            self.item(options, dpi) + 2 * (options.panel_padding * (2 * dpi)) + name_height * (2
                * dpi)
        } else {
            self.height
        }
    }

    /// The largest icon: the requested size, or for a panel with a requested size 256 DIP.
    pub open spec fn largest_icon(self, options: LayoutOptions) -> int {
        if options.panel_width != 0 || options.panel_height != 0 {
            256
        } else {
            options.icon_size as int
        }
    }

    /// Whether the parts of the panel are where they belong: the row of items in the middle above
    /// the name, each icon in the middle of its item, and the name at the bottom within the
    /// padding.
    pub open spec fn places(
        self,
        layout: LayoutSnapshot,
        options: LayoutOptions,
        dpi: u32,
        name_height: u32,
    ) -> bool {
        let capacity = layout.capacity as int;
        let item = self.item(options, dpi);
        let step = item + options.item_gap * (2 * dpi);
        let width = self.panel_width(options, dpi, capacity);
        let height = self.panel_height(options, dpi, name_height);
        let name = name_height * (2 * dpi);
        let padding = options.panel_padding * (2 * dpi);
        let inset = options.icon_padding * (2 * dpi);
        let left = width - self.row(options, dpi, capacity);
        let top = height - name - item;
        &&& is_nearest(layout.bounds.right - layout.bounds.left, width)
        &&& is_nearest(layout.bounds.bottom - layout.bounds.top, height)
        &&& is_nearest(layout.icon_size as int, self.icon * (2 * dpi))
        &&& forall|place: int|
            0 <= place < layout.items@.len() ==> {
                let x = left + 2 * (place * step);
                let rect = (#[trigger] layout.items@[place]).outer;
                let icon = layout.items@[place].icon;
                &&& is_nearest_to_half(rect.left as int, x)
                &&& is_nearest_to_half(rect.right as int, x + 2 * item)
                &&& is_nearest_to_half(rect.top as int, top)
                &&& is_nearest_to_half(rect.bottom as int, top + 2 * item)
                &&& is_nearest_to_half(icon.left as int, x + 2 * inset)
                &&& is_nearest_to_half(icon.right as int, x + 2 * item - 2 * inset)
                &&& is_nearest_to_half(icon.top as int, top + 2 * inset)
                &&& is_nearest_to_half(icon.bottom as int, top + 2 * item - 2 * inset)
            }
        &&& layout.footer is Some <==> name_height != 0
        &&& layout.footer matches Some(rect) ==> {
            &&& is_nearest(rect.left as int, padding)
            &&& is_nearest(rect.right as int, width - padding)
            &&& is_nearest(rect.top as int, height - padding - name)
            &&& is_nearest(rect.bottom as int, height - padding)
        }
    }
}

proof fn next_is_too_large(space: int, part: int)
    requires
        part > 0,
    ensures
        part * (space / part + 1) > space,
{
    vstd::arithmetic::div_mod::lemma_fundamental_div_mod(space, part);
    vstd::arithmetic::div_mod::lemma_mod_bound(space, part);
    assert(part * (space / part + 1) == part * (space / part) + part) by (nonlinear_arith);
}

proof fn larger_icon_is_too_wide(f: Frame, size: PanelSize)
    requires
        f.in_range(),
        f.problem() is None,
        f.dpi <= u32::MAX,
        f.icon() + 2 * f.options.icon_padding == f.row_space() / (f.capacity() * (2 * f.dpi)),
        size.icon == f.icon() + 1,
    ensures
        size.row(f.options, f.dpi as u32, f.capacity()) + 2 * f.u(f.options.panel_padding as int)
            > f.outer_width(),
{
    f.row_fits();
    let cap = f.capacity();
    let share = cap * (2 * f.dpi);
    let wide = f.row_space() / share + 1;
    assert(share > 0) by (nonlinear_arith)
        requires
            cap >= 1,
            f.dpi >= 48,
            share == cap * (2 * f.dpi),
    ;
    next_is_too_large(f.row_space(), share);
    assert(share * wide == cap * (wide * (2 * f.dpi))) by (nonlinear_arith)
        requires
            share == cap * (2 * f.dpi),
    ;
    assert(wide == size.icon + 2 * f.options.icon_padding);
}

proof fn larger_icon_is_too_high(f: Frame, size: PanelSize)
    requires
        f.in_range(),
        f.problem() is None,
        f.icon() == f.height_fit() / (2 * f.dpi),
        size.icon == f.icon() + 1,
    ensures
        size.item(f.options, f.dpi as u32) + 2 * f.u(f.options.panel_padding as int) + f.u(
            f.name_height,
        ) > f.outer_height(),
{
    let ip = f.options.icon_padding as int;
    next_is_too_large(f.height_fit(), 2 * f.dpi);
    assert((2 * f.dpi) * size.icon == size.icon * (2 * f.dpi)) by (nonlinear_arith);
    units_sum(size.icon, ip, f.dpi);
    units_sum(size.icon + ip, ip, f.dpi);
}

/// The panel is laid out as large as it may be: it keeps to the available area, the requested size
/// and the largest size; its icons are the largest ones, from 24 DIP on, whose row fits into it; and
/// all its parts are where they belong, to the nearest pixel.
pub proof fn panel_is_laid_out(
    layout: LayoutSnapshot,
    options: LayoutOptions,
    monitor: MonitorSnapshot,
    count: usize,
    selected: usize,
    name_height: u32,
) -> (size: PanelSize)
    requires
        refusal(options, monitor, count, selected, name_height) is None,
        layout.is_layout(options, monitor, count, selected, name_height),
        monitor.available.right - monitor.available.left <= i32::MAX,
        monitor.available.bottom - monitor.available.top <= i32::MAX,
    ensures
        ({
            let area = monitor.available;
            let dpi = monitor.dpi;
            let capacity = layout.capacity as int;
            let larger = PanelSize { icon: size.icon + 1, ..size };
            &&& layout.monitor == monitor
            &&& is_extent(
                size.width,
                area.right - area.left,
                options.panel_width,
                options.max_width,
                dpi,
            )
            &&& is_extent(
                size.height,
                area.bottom - area.top,
                options.panel_height,
                options.max_height,
                dpi,
            )
            &&& 24 <= size.icon <= size.largest_icon(options)
            &&& size.fits(options, dpi, capacity, name_height)
            &&& size.icon == size.largest_icon(options) || !larger.fits(
                options,
                dpi,
                capacity,
                name_height,
            )
            &&& size.places(layout, options, dpi, name_height)
        }),
{
    let f = frame(options, monitor, count, name_height);
    let size = PanelSize { icon: f.icon(), width: f.outer_width(), height: f.outer_height() };
    let larger = PanelSize { icon: size.icon + 1, ..size };
    let dpi = monitor.dpi;
    let cap = f.capacity();
    f.row_fits();
    f.centred();
    panel_within_area(layout, options, monitor, count, selected, name_height);
    page_holds_the_selection(layout, options, monitor, count, selected, name_height);
    units_sum(f.icon(), options.icon_padding as int, f.dpi);
    px_order(f.final_width(), 192 * f.width);
    px_order(f.final_height(), 192 * f.height);
    assert(size.item(options, dpi) == f.u(f.item()));
    assert(size.row(options, dpi, cap) == f.row_width());
    assert(size.panel_width(options, dpi, cap) == f.final_width());
    assert(size.panel_height(options, dpi, name_height) == f.final_height());
    if f.icon() != size.largest_icon(options) {
        if f.icon() == f.height_fit() / (2 * f.dpi) {
            larger_icon_is_too_high(f, larger);
        } else {
            larger_icon_is_too_wide(f, larger);
        }
    }
    assert forall|place: int| 0 <= place < layout.items@.len() implies {
        let step = f.u(f.item()) + f.u(options.item_gap as int);
        let x = f.final_width() - f.row_width() + 2 * (place * step);
        let top = f.final_height() - f.u(f.name_height) - f.u(f.item());
        let item = f.u(f.item());
        let inset = f.u(options.icon_padding as int);
        let rect = (#[trigger] layout.items@[place]).outer;
        let icon = layout.items@[place].icon;
        &&& is_nearest_to_half(rect.left as int, x)
        &&& is_nearest_to_half(rect.right as int, x + 2 * item)
        &&& is_nearest_to_half(rect.top as int, top)
        &&& is_nearest_to_half(rect.bottom as int, top + 2 * item)
        &&& is_nearest_to_half(icon.left as int, x + 2 * inset)
        &&& is_nearest_to_half(icon.right as int, x + 2 * item - 2 * inset)
        &&& is_nearest_to_half(icon.top as int, top + 2 * inset)
        &&& is_nearest_to_half(icon.bottom as int, top + 2 * item - 2 * inset)
    } by {
        items_are_placed(layout, options, monitor, count, selected, name_height, place);
    }
    footer_is_placed(f);
    size
}

proof fn items_are_placed(
    layout: LayoutSnapshot,
    options: LayoutOptions,
    monitor: MonitorSnapshot,
    count: usize,
    selected: usize,
    name_height: u32,
    place: int,
)
    requires
        refusal(options, monitor, count, selected, name_height) is None,
        layout.is_layout(options, monitor, count, selected, name_height),
        0 <= place < layout.items@.len(),
    ensures
        ({
            let f = frame(options, monitor, count, name_height);
            let x = f.item_left(place);
            let y = f.row_top();
            let item = f.u(f.item());
            let inset = f.u(options.icon_padding as int);
            let rect = layout.items@[place].outer;
            let icon = layout.items@[place].icon;
            &&& 2 * f.row_left() == f.final_width() - f.row_width()
            &&& 2 * y == f.final_height() - f.u(f.name_height) - item
            &&& rect.left == px(x) && rect.right == px(x + item)
            &&& rect.top == px(y) && rect.bottom == px(y + item)
            &&& icon.left == px(x + inset) && icon.right == px(x + item - inset)
            &&& icon.top == px(y + inset) && icon.bottom == px(y + item - inset)
        }),
{
    let f = frame(options, monitor, count, name_height);
    f.row_fits();
    f.centred();
    panel_within_area(layout, options, monitor, count, selected, name_height);
    page_holds_the_selection(layout, options, monitor, count, selected, name_height);
    f.item_within_row(place);
    units_range(options.panel_padding as int, f.dpi);
    units_range(options.icon_padding as int, f.dpi);
    units_range(options.item_gap as int, f.dpi);
    units_range(name_height as int, f.dpi);
    units_range(f.icon(), f.dpi);
    units_range(f.item(), f.dpi);
    let x = f.item_left(place);
    let y = f.row_top();
    let ip = f.u(options.icon_padding as int);
    let size = f.u(f.icon());
    px_order(0, x);
    px_order(x, x + ip);
    px_order(x + ip, x + ip + size);
    px_order(x + ip + size, x + f.u(f.item()));
    px_order(x + f.u(f.item()), f.final_width());
    px_order(0, y);
    px_order(y, y + ip);
    px_order(y + ip, y + ip + size);
    px_order(y + ip + size, y + f.u(f.item()));
    px_order(y + f.u(f.item()), f.final_height());
    px_order(f.final_width(), 192 * f.width);
    px_order(f.final_height(), 192 * f.height);
}

proof fn footer_is_placed(f: Frame)
    requires
        f.in_range(),
        f.problem() is None,
    ensures
        ({
            let padding = f.u(f.options.panel_padding as int);
            f.footer() matches Some(rect) ==> {
                &&& rect.left == px(padding)
                &&& rect.right == px(f.final_width() - padding)
                &&& rect.top == px(f.final_height() - padding - f.u(f.name_height))
                &&& rect.bottom == px(f.final_height() - padding)
            }
        }),
{
    f.row_fits();
    let padding = f.u(f.options.panel_padding as int);
    units_range(f.options.panel_padding as int, f.dpi);
    units_range(f.name_height, f.dpi);
    units_range(f.item(), f.dpi);
    px_order(0, padding);
    px_order(padding, f.final_width());
    px_order(0, f.final_width() - padding);
    px_order(f.final_width() - padding, f.final_width());
    px_order(0, f.final_height() - padding - f.u(f.name_height));
    px_order(f.final_height() - padding - f.u(f.name_height), f.final_height() - padding);
    px_order(f.final_height() - padding, f.final_height());
    px_order(f.final_width(), 192 * f.width);
    px_order(f.final_height(), 192 * f.height);
}

/// A page holds as many items as there are, as columns are allowed, and as fit into the width at
/// the preferred size of icons: 24 DIP for a panel with a requested size, and else the requested
/// size of icons as far as the panel holds one. It holds no fewer.
pub proof fn page_is_full(
    layout: LayoutSnapshot,
    options: LayoutOptions,
    monitor: MonitorSnapshot,
    count: usize,
    selected: usize,
    name_height: u32,
) -> (size: PanelSize)
    requires
        refusal(options, monitor, count, selected, name_height) is None,
        layout.is_layout(options, monitor, count, selected, name_height),
        monitor.available.right - monitor.available.left <= i32::MAX,
        monitor.available.bottom - monitor.available.top <= i32::MAX,
    ensures
        ({
            let area = monitor.available;
            let d = 2 * monitor.dpi;
            let capacity = layout.capacity as int;
            let inner = size.width - 2 * (options.panel_padding * d);
            let room = size.height - 2 * (options.panel_padding * d) - name_height * d - 2 * (
            options.icon_padding * d);
            let single = inner - 2 * (options.icon_padding * d);
            let gap = options.item_gap * d;
            let wanted = options.icon_size * d;
            let explicit = options.panel_width != 0 || options.panel_height != 0;
            let preferred = if explicit {
                24 * d
            } else if wanted <= room && wanted <= single {
                wanted
            } else if room <= single {
                room
            } else {
                single
            };
            let cell = preferred + 2 * (options.icon_padding * d) + gap;
            &&& is_extent(
                size.width,
                area.right - area.left,
                options.panel_width,
                options.max_width,
                monitor.dpi,
            )
            &&& is_extent(
                size.height,
                area.bottom - area.top,
                options.panel_height,
                options.max_height,
                monitor.dpi,
            )
            &&& 1 <= capacity <= count
            &&& options.max_columns != 0 ==> capacity <= options.max_columns
            &&& cell > 0 ==> capacity * cell <= inner + gap
            &&& capacity == count || capacity == options.max_columns || cell <= 0 || (capacity + 1)
                * cell > inner + gap
        }),
{
    let f = frame(options, monitor, count, name_height);
    let size = PanelSize { icon: f.icon(), width: f.outer_width(), height: f.outer_height() };
    f.row_fits();
    let cap = f.capacity();
    let cell = f.cell();
    let space = f.inner_width() + f.u(options.item_gap as int);
    if cell > 0 {
        quotient_fits(space, cell);
        next_is_too_large(space, cell);
        assert(cell * f.slots() == f.slots() * cell) by (nonlinear_arith);
        assert(cell * (f.slots() + 1) == (f.slots() + 1) * cell) by (nonlinear_arith);
        assert(cap * cell <= f.slots() * cell) by (nonlinear_arith)
            requires
                cap <= f.slots(),
                cell > 0,
        ;
    }
    size
}

/// The pages follow each other: page `p` shows the items from `p * capacity` on, in their order, as
/// many as are left up to the capacity, and the page that is shown is that of the selected item.
pub proof fn pages_follow_each_other(
    layout: LayoutSnapshot,
    options: LayoutOptions,
    monitor: MonitorSnapshot,
    count: usize,
    selected: usize,
    name_height: u32,
)
    requires
        refusal(options, monitor, count, selected, name_height) is None,
        layout.is_layout(options, monitor, count, selected, name_height),
    ensures
        ({
            let first = layout.page * layout.capacity;
            let shown = layout.items@.len() as int;
            &&& first <= selected < first + shown
            &&& forall|place: int|
                0 <= place < shown ==> (#[trigger] layout.items@[place]).index == first + place
            &&& shown == layout.capacity || first + shown == count
            &&& shown <= layout.capacity
            &&& first + shown <= count
        }),
{
    let f = frame(options, monitor, count, name_height);
    f.row_fits();
    let cap = f.capacity();
    let page = selected as int / cap;
    vstd::arithmetic::div_mod::lemma_fundamental_div_mod(selected as int, cap);
    vstd::arithmetic::div_mod::lemma_mod_bound(selected as int, cap);
    assert(cap * page == page * cap) by (nonlinear_arith);
}

/// Why there is no layout: a given size below the smallest panel, which holds an icon of 24 DIP
/// within the paddings, and the name too in its height; no item, more than 4096 items, or no such
/// selection; a density outside of 48 to 960 dpi; a monitor without room; or a panel that is too
/// low, too narrow or too crowded for icons of 24 DIP.
pub proof fn refusals_have_a_cause(
    options: LayoutOptions,
    monitor: MonitorSnapshot,
    count: usize,
    selected: usize,
    name_height: u32,
)
    ensures
        ({
            let refused = refusal(options, monitor, count, selected, name_height);
            let smallest = 24 + 2 * options.icon_padding + 2 * options.panel_padding;
            let lowest = smallest + options.name_height;
            let narrow = |size: u32| 0 < size && size < smallest;
            let low = |size: u32| 0 < size && size < lowest;
            let conflict = narrow(options.panel_width) || low(options.panel_height) || narrow(
                options.max_width,
            ) || low(options.max_height);
            let area = monitor.available;
            &&& refused matches Some(LayoutError::Conflict { axis, minimum }) ==> match axis {
                LayoutAxis::PanelWidth => narrow(options.panel_width) && minimum == smallest,
                LayoutAxis::PanelHeight => low(options.panel_height) && minimum == lowest,
                LayoutAxis::MaxWidth => narrow(options.max_width) && minimum == smallest,
                LayoutAxis::MaxHeight => low(options.max_height) && minimum == lowest,
            }
            &&& conflict <==> refused is Some && refused->0 is Conflict
            &&& !conflict ==> (refused == Some(LayoutError::Count) <==> !(1 <= count <= 4096
                && selected < count))
            &&& !conflict && 1 <= count <= 4096 && selected < count ==> (refused == Some(
                LayoutError::Dpi,
            ) <==> !(48 <= monitor.dpi <= 960))
            &&& !conflict && 1 <= count <= 4096 && selected < count && 48 <= monitor.dpi <= 960
                ==> (refused == Some(LayoutError::Monitor) <==> area.right <= area.left
                || area.bottom <= area.top)
        }),
{
}

/// A request is refused for its height exactly if the panel cannot hold an icon of 24 DIP within the
/// paddings above the name. One of a panel with a requested size is refused for its width exactly
/// if the panel cannot hold such an icon there, and an accepted one holds it.
pub proof fn small_panels_are_refused(
    options: LayoutOptions,
    monitor: MonitorSnapshot,
    count: usize,
    selected: usize,
    name_height: u32,
) -> (size: PanelSize)
    requires
        refusal(options, monitor, count, selected, name_height) matches Some(error) ==> error
            == LayoutError::Height || error == LayoutError::Width || error == LayoutError::Fit,
        monitor.available.right - monitor.available.left <= i32::MAX,
        monitor.available.bottom - monitor.available.top <= i32::MAX,
    ensures
        ({
            let refused = refusal(options, monitor, count, selected, name_height);
            let area = monitor.available;
            let d = 2 * monitor.dpi;
            let smallest = PanelSize { icon: 24, ..size };
            let padding = options.panel_padding * d;
            &&& is_extent(
                size.width,
                area.right - area.left,
                options.panel_width,
                options.max_width,
                monitor.dpi,
            )
            &&& is_extent(
                size.height,
                area.bottom - area.top,
                options.panel_height,
                options.max_height,
                monitor.dpi,
            )
            &&& refused == Some(LayoutError::Height) <==> smallest.item(options, monitor.dpi) + 2
                * padding + name_height * d > size.height
            &&& refused != Some(LayoutError::Height) && (options.panel_width != 0
                || options.panel_height != 0) ==> (refused == Some(LayoutError::Width) <==>
            smallest.item(options, monitor.dpi) + 2 * padding > size.width)
            &&& refused is None ==> smallest.fits(options, monitor.dpi, 1, name_height)
        }),
{
    let f = frame(options, monitor, count, name_height);
    let size = PanelSize { icon: 24, width: f.outer_width(), height: f.outer_height() };
    let ip = options.icon_padding as int;
    units_sum(24, ip, f.dpi);
    units_sum(24 + ip, ip, f.dpi);
    units_range(24, f.dpi);
    units_range(ip, f.dpi);
    units_range(options.item_gap as int, f.dpi);
    assert(size.item(options, monitor.dpi) == f.u(24) + 2 * f.u(ip));
    if f.explicit() {
        let cell = f.cell();
        let space = f.inner_width() + f.u(options.item_gap as int);
        quotient_fits(space, cell);
        next_is_too_large(space, cell);
        if f.slots() >= 1 {
            assert(cell * f.slots() >= cell) by (nonlinear_arith)
                requires
                    f.slots() >= 1,
                    cell > 0,
            ;
        } else {
            assert(cell * (f.slots() + 1) <= cell) by (nonlinear_arith)
                requires
                    f.slots() <= 0,
                    cell > 0,
            ;
        }
    }
    if f.problem() is None {
        f.row_fits();
        let cap = f.capacity();
        let item = f.u(f.item());
        units_order(24 + 2 * ip, f.item(), f.dpi);
        units_range(f.item(), f.dpi);
        assert(cap * item >= item) by (nonlinear_arith)
            requires
                cap >= 1,
                item >= 0,
        ;
        product_bound(cap - 1, f.u(options.item_gap as int), cap - 1, f.u(options.item_gap as int));
        assert(size.row(options, monitor.dpi, 1) == size.item(options, monitor.dpi)) by {
            let it = size.item(options, monitor.dpi);
            assert(1 * it == it);
            assert(0 * (options.item_gap * (2 * monitor.dpi)) == 0) by (nonlinear_arith);
        }
    }
    size
}

/// A point hits an item exactly if it lies on the item: from its left and top edge on, up to but
/// not on its right and bottom edge.
pub proof fn point_hits_what_it_lies_on(
    layout: LayoutSnapshot,
    options: LayoutOptions,
    monitor: MonitorSnapshot,
    count: usize,
    selected: usize,
    name_height: u32,
    x: int,
    y: int,
    place: int,
)
    requires
        refusal(options, monitor, count, selected, name_height) is None,
        layout.is_layout(options, monitor, count, selected, name_height),
        0 <= place < layout.items@.len(),
    ensures
        ({
            let item = layout.items@[place];
            hit(layout.items@, x, y, 0) == Some(item.index) <==> item.outer.left <= x
                < item.outer.right && item.outer.top <= y < item.outer.bottom
        }),
{
    let item = layout.items@[place];
    pages_follow_each_other(layout, options, monitor, count, selected, name_height);
    if item.outer.covers(x, y) {
        covered_is_hit(layout, options, monitor, count, selected, name_height, x, y, place, 0);
    }
    if hit(layout.items@, x, y, 0) is Some {
        let other = hit_is_covered(layout.items@, x, y, 0);
        assert(layout.items@[other].index == layout.items@[place].index ==> other == place);
    }
}

proof fn covered_is_hit(
    layout: LayoutSnapshot,
    options: LayoutOptions,
    monitor: MonitorSnapshot,
    count: usize,
    selected: usize,
    name_height: u32,
    x: int,
    y: int,
    place: int,
    from: int,
)
    requires
        refusal(options, monitor, count, selected, name_height) is None,
        layout.is_layout(options, monitor, count, selected, name_height),
        0 <= from <= place < layout.items@.len(),
        layout.items@[place].outer.covers(x, y),
    ensures
        hit(layout.items@, x, y, from) == Some(layout.items@[place].index),
    decreases place - from,
{
    if from < place {
        ends_before(layout, options, monitor, count, selected, name_height, from, place);
        covered_is_hit(
            layout,
            options,
            monitor,
            count,
            selected,
            name_height,
            x,
            y,
            place,
            from + 1,
        );
    }
}

proof fn hit_is_covered(items: Seq<ItemRect>, x: int, y: int, from: int) -> (place: int)
    requires
        hit(items, x, y, from) is Some,
    ensures
        from <= place < items.len(),
        items[place].outer.covers(x, y),
        items[place].index == hit(items, x, y, from)->0,
    decreases items.len() - from,
{
    if items[from].outer.covers(x, y) {
        from
    } else {
        hit_is_covered(items, x, y, from + 1)
    }
}

}
