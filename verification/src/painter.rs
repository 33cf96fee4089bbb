//! The state of the panel: whether it is shown, what the pointer is on, and when a layout can be
//! used again.

use vstd::prelude::*;

use crate::config::schema::Config;
use crate::icon_cache::{IconKey, KeyView};
use crate::layout::{
    frame, hit, page_holds_the_selection, refusal, ItemRect, LayoutError, LayoutOptions,
    LayoutSnapshot, MonitorSnapshot,
};
use crate::text::same_str;

verus! {

/// A key or none as a mathematical value.
pub open spec fn key_view(key: Option<IconKey>) -> Option<KeyView> {
    match key {
        Some(key) => Some(key@),
        None => None,
    }
}

fn same_key(a: &Option<IconKey>, b: &Option<IconKey>) -> (r: bool)
    ensures
        r == (key_view(*a) == key_view(*b)),
{
    match (a, b) {
        (Some(a), Some(b)) => a.identity == b.identity && same_str(
            a.group.as_str(),
            b.group.as_str(),
        ),
        (None, None) => true,
        _ => false,
    }
}

/// What to do with the panel after it was drawn.
#[derive(Debug, Clone, Copy, PartialEq, Eq, Structural)]
pub enum PaintStep {
    /// It is hidden again: it is not wanted any more.
    Hide,
    /// It is shown and gets the focus.
    Show,
    /// Nothing.
    Done,
}

/// The panel.
pub struct Panel {
    pub shown: bool,
    pub hovered: Option<IconKey>,
    pub pressed: Option<IconKey>,
}

/// The panel as a mathematical value.
#[verifier::ext_equal]
pub struct PanelView {
    pub shown: bool,
    pub hovered: Option<KeyView>,
    pub pressed: Option<KeyView>,
}

impl View for Panel {
    type V = PanelView;

    open spec fn view(&self) -> PanelView {
        PanelView {
            shown: self.shown,
            hovered: key_view(self.hovered),
            pressed: key_view(self.pressed),
        }
    }
}

/// A panel that is not shown.
pub open spec fn hidden() -> PanelView {
    PanelView { shown: false, hovered: None, pressed: None }
}

impl Panel {
    /// Checks that a panel with one application can be laid out, where there is a panel at all.
    pub fn check(config: &Config, monitor: MonitorSnapshot, name_height: u32) -> (r: Result<
        (),
        LayoutError,
    >)
        ensures
            r == (match config.layout_options().conflict() {
                Some(error) => Err(error),
                None => if !config.switch_apps_enable {
                    Ok::<(), LayoutError>(())
                } else {
                    match refusal(config.layout_options(), monitor, 1, 0, name_height) {
                        Some(error) => Err(error),
                        None => Ok(()),
                    }
                },
            }),
    {
        let options = LayoutOptions::from_config(config);
        match options.validate() {
            Err(error) => {
                return Err(error);
            },
            Ok(()) => {},
        }
        if config.switch_apps_enable {
            match LayoutSnapshot::calculate(&options, monitor, 1, 0, name_height) {
                Ok(_) => {},
                Err(error) => {
                    return Err(error);
                },
            }
        }
        Ok(())
    }

    pub fn new() -> (r: Self)
        ensures
            r@ == hidden(),
    {
        Panel { shown: false, hovered: None, pressed: None }
    }

    /// The step after the panel was drawn.
    pub fn drawn(&mut self, wanted: bool) -> (r: PaintStep)
        ensures
            if !wanted {
                r == PaintStep::Hide && final(self)@ == hidden()
            } else {
                &&& final(self)@ == old(self)@
                &&& r == (if old(self)@.shown {
                    PaintStep::Done
                } else {
                    PaintStep::Show
                })
            },
    {
        if !wanted {
            self.conceal();
            return PaintStep::Hide;
        }
        if self.shown {
            PaintStep::Done
        } else {
            PaintStep::Show
        }
    }

    /// The step after the panel was shown and got the focus.
    pub fn focused(&mut self, wanted: bool) -> (r: PaintStep)
        ensures
            if !wanted {
                r == PaintStep::Hide && final(self)@ == hidden()
            } else {
                r == PaintStep::Done && final(self)@ == (PanelView { shown: true, ..old(self)@ })
            },
    {
        if !wanted {
            self.conceal();
            return PaintStep::Hide;
        }
        self.shown = true;
        PaintStep::Done
    }

    /// Takes note that the panel is hidden; the pointer is on nothing then.
    pub fn conceal(&mut self)
        ensures
            final(self)@ == hidden(),
    {
        self.shown = false;
        self.hovered = None;
        self.pressed = None;
    }

    /// Takes note of the icon under the pointer; returns whether it is another one.
    pub fn hover(&mut self, key: Option<IconKey>) -> (r: bool)
        ensures
            final(self)@ == (PanelView { hovered: key_view(key), ..old(self)@ }),
            r == (old(self)@.hovered != key_view(key)),
    {
        let changed = !same_key(&self.hovered, &key);
        self.hovered = key;
        changed
    }

    /// Takes note of the icon that is pressed.
    pub fn press(&mut self, key: Option<IconKey>)
        ensures
            final(self)@ == (PanelView { pressed: key_view(key), ..old(self)@ }),
    {
        self.pressed = key;
    }

    /// Takes the icon that was pressed.
    pub fn release(&mut self) -> (r: Option<IconKey>)
        ensures
            key_view(r) == old(self)@.pressed,
            final(self)@ == (PanelView { pressed: None, ..old(self)@ }),
    {
        let mut pressed: Option<IconKey> = None;
        std::mem::swap(&mut pressed, &mut self.pressed);
        pressed
    }

    /// The application under a point of the screen; none while the panel is not shown.
    pub fn clicked(&self, layout: Option<&LayoutSnapshot>, x: i32, y: i32) -> (r: Option<usize>)
        ensures
            r == (match layout {
                Some(layout) => if self@.shown {
                    hit(layout.items@, x - layout.bounds.left, y - layout.bounds.top, 0)
                } else {
                    None
                },
                None => None,
            }),
    {
        if !self.shown {
            return None;
        }
        match layout {
            Some(layout) => layout.hit_test(x, y),
            None => None,
        }
    }
}

/// Whether an item of a page has an index.
pub open spec fn on_page(items: Seq<ItemRect>, index: usize) -> bool {
    exists|i: int| 0 <= i < items.len() && (#[trigger] items[i]).index == index
}

/// Whether the applications to draw are in order: there are some, and one of them is selected.
pub fn accepts_selection(count: usize, selected: usize) -> (r: bool)
    ensures
        r == (count > 0 && selected < count),
{
    count > 0 && selected < count
}

/// Whether the layout of the last drawing can be used again: for as many applications, on the
/// same monitor, and with the selected one on its page.
pub fn can_reuse(
    layout: &LayoutSnapshot,
    drawn: usize,
    monitor: &MonitorSnapshot,
    count: usize,
    selected: usize,
) -> (r: bool)
    ensures
        r == (drawn == count && layout.monitor == *monitor && on_page(layout.items@, selected)),
{
    if drawn != count || layout.monitor != *monitor {
        return false;
    }
    for i in 0..layout.items.len()
        invariant
            drawn == count,
            layout.monitor == *monitor,
            forall|k: int| 0 <= k < i ==> (#[trigger] layout.items@[k]).index != selected,
    {
        if layout.items[i].index == selected {
            return true;
        }
    }
    false
}

/// Why nothing is drawn.
#[derive(Debug, Clone, Copy, PartialEq, Eq, Structural)]
pub enum FrameError {
    /// There is no application, or none is selected.
    Selection,
    Layout(LayoutError),
}

/// Plans a drawing: the layout to replace the last one with, or none where the last one can be
/// used again. `last` is the last layout with its number of applications.
pub fn plan_frame(
    config: &Config,
    last: Option<(&LayoutSnapshot, usize)>,
    monitor: MonitorSnapshot,
    count: usize,
    selected: usize,
    name_height: u32,
) -> (r: Result<Option<LayoutSnapshot>, FrameError>)
    ensures
        ({
            let reusable = match last {
                Some((layout, drawn)) => drawn == count && layout.monitor == monitor && on_page(
                    layout.items@,
                    selected,
                ),
                None => false,
            };
            let problem = refusal(config.layout_options(), monitor, count, selected, name_height);
            match r {
                Err(FrameError::Selection) => !(count > 0 && selected < count),
                Err(FrameError::Layout(error)) => count > 0 && selected < count && !reusable
                    && problem == Some(error),
                Ok(None) => count > 0 && selected < count && reusable,
                Ok(Some(layout)) => count > 0 && selected < count && !reusable && problem is None
                    && layout.is_layout(
                    config.layout_options(),
                    monitor,
                    count,
                    selected,
                    name_height,
                ),
            }
        }),
{
    if !accepts_selection(count, selected) {
        return Err(FrameError::Selection);
    }
    if let Some((layout, drawn)) = last {
        if can_reuse(layout, drawn, &monitor, count, selected) {
            return Ok(None);
        }
    }
    let options = LayoutOptions::from_config(config);
    match LayoutSnapshot::calculate(&options, monitor, count, selected, name_height) {
        Ok(layout) => Ok(Some(layout)),
        Err(error) => Err(FrameError::Layout(error)),
    }
}

/// A layout that can be used again is the one that would be computed: the page of the selected
/// application in the same frame.
pub proof fn reused_layout_is_the_same(
    layout: LayoutSnapshot,
    options: LayoutOptions,
    monitor: MonitorSnapshot,
    count: usize,
    drawn_for: usize,
    selected: usize,
    name_height: u32,
)
    requires
        refusal(options, monitor, count, drawn_for, name_height) is None,
        layout.is_layout(options, monitor, count, drawn_for, name_height),
        on_page(layout.items@, selected),
        selected < count,
        drawn_for < count,
    ensures
        layout.is_layout(options, monitor, count, selected, name_height),
{
    let f = frame(options, monitor, count, name_height);
    let capacity = f.capacity();
    page_holds_the_selection(layout, options, monitor, count, drawn_for, name_height);
    let place = choose|place: int|
        0 <= place < layout.items@.len() && (#[trigger] layout.items@[place]).index == selected;
    let page = drawn_for as int / capacity;
    vstd::arithmetic::div_mod::lemma_fundamental_div_mod(drawn_for as int, capacity);
    vstd::arithmetic::div_mod::lemma_mod_bound(drawn_for as int, capacity);
    assert(capacity * page == page * capacity) by (nonlinear_arith);
    assert(0 <= page * capacity) by (nonlinear_arith)
        requires
            drawn_for as int == page * capacity + drawn_for as int % capacity,
            0 <= drawn_for as int % capacity < capacity,
            drawn_for as int >= 0,
    ;
    assert(layout.items@[place].index == page * capacity + place);
    vstd::arithmetic::div_mod::lemma_fundamental_div_mod_converse(
        selected as int,
        capacity,
        page,
        place,
    );
}

}
