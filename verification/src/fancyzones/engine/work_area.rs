//! A work area: a layout bound to a monitor's work area, with the windows
//! assigned to its zones. Zones are held relative to the work area's top
//! left corner; screen coordinates are converted at this boundary.

use vstd::prelude::*;
use crate::fancyzones::data::keyed::str_get;
use crate::fancyzones::data::stores::{zones_of_window, CustomLayoutsStore, LayoutAssignedWindows};
use crate::fancyzones::data::{is_grid_type, CanvasZoneRect, CustomLayoutData, CustomLayoutInfo, ZoneSetLayoutType};
use crate::fancyzones::data::LayoutData as StoredLayoutData;
use crate::fancyzones::layout::grid::{bands_fit, grid_complete, grid_zones};
use crate::fancyzones::layout::lookup::{combined_rect, zones_at_point};
use crate::fancyzones::layout::zones::{area_fits, pair_valid, zone_pair, zone_pairs};
use crate::fancyzones::layout::{calculate_grid_zones, template_fits, template_zones, Layout, LayoutData};
use crate::fancyzones::rect::{Point, Rect};
use crate::fancyzones::settings::OverlappingZonesAlgorithm;

verus! {

/// The work area's own coordinates: its size with the origin at its top
/// left corner.
pub open spec fn relative_rect(r: Rect) -> Rect {
    Rect { left: 0, top: 0, right: (r.right - r.left) as i32, bottom: (r.bottom - r.top) as i32 }
}

/// Width and height fit in an `i32`.
pub open spec fn extent_fits(r: Rect) -> bool {
    &&& i32::MIN <= r.right - r.left <= i32::MAX
    &&& i32::MIN <= r.bottom - r.top <= i32::MAX
}

/// The layout settings a stored layout gives.
pub open spec fn init_data_of(d: StoredLayoutData) -> LayoutData {
    LayoutData {
        uuid: d.uuid,
        layout_type: d.layout_type,
        show_spacing: d.show_spacing,
        spacing: d.spacing,
        zone_count: d.zone_count,
        sensitivity_radius: d.sensitivity_radius,
    }
}

/// The zones a stored (non-custom) layout gets in a work area, or `None`
/// when it cannot get as many as it asks for.
pub open spec fn standard_zones(d: StoredLayoutData, wa: Rect) -> Option<Seq<(Rect, i64)>> {
    let w = wa.right - wa.left;
    let h = wa.bottom - wa.top;
    let s = if d.show_spacing {
        d.spacing as int
    } else {
        0
    };
    if w == 0 || h == 0 || d.zone_count < 0 || (d.zone_count == 0 && is_grid_type(d.layout_type)) {
        None
    } else {
        match template_zones(d.layout_type, w, h, d.zone_count, s) {
            Some(zs) => if zs.len() == d.zone_count {
                Some(zs)
            } else {
                None
            },
            None => None,
        }
    }
}

/// The rectangle a canvas zone covers.
pub open spec fn canvas_rect(z: CanvasZoneRect) -> Rect {
    Rect { left: z.x, top: z.y, right: (z.x + z.width) as i32, bottom: (z.y + z.height) as i32 }
}

/// The spacing a grid layout uses.
pub open spec fn grid_spacing(show: bool, spacing: i32) -> int {
    if show {
        spacing as int
    } else {
        0
    }
}

/// The zone rectangles a custom layout gives in a work area, in order.
pub open spec fn custom_rects(c: CustomLayoutData, wa: Rect) -> Seq<Rect> {
    match c.info {
        CustomLayoutInfo::Canvas(cv) => cv.zones@.map_values(|z: CanvasZoneRect| canvas_rect(z)),
        CustomLayoutInfo::Grid(g) => grid_zones(
            g.rows as int,
            g.columns as int,
            g.rows_percents@,
            g.columns_percents@,
            g.cells(),
            wa.right - wa.left,
            wa.bottom - wa.top,
            grid_spacing(g.show_spacing, g.spacing),
        ).map_values(|p: (Rect, i64)| p.0),
    }
}

/// A custom layout's zones can be computed in a work area: canvas corners
/// fit in an `i32`, a grid is complete and its bands fit, and the number of
/// zones fits in an `i64`.
pub open spec fn custom_fits(c: CustomLayoutData, wa: Rect) -> bool {
    &&& match c.info {
        CustomLayoutInfo::Canvas(cv) => forall|i: int|
            0 <= i < cv.zones@.len() ==> i32::MIN <= (#[trigger] cv.zones@[i]).x + cv.zones@[i].width <= i32::MAX
                && i32::MIN <= cv.zones@[i].y + cv.zones@[i].height <= i32::MAX,
        CustomLayoutInfo::Grid(g) => {
            &&& area_fits(relative_rect(wa))
            &&& grid_complete(g.rows as int, g.columns as int, g.rows_percents@, g.columns_percents@, g.cells())
            &&& bands_fit(g.rows_percents@, g.rows as int, wa.bottom - wa.top)
            &&& bands_fit(g.columns_percents@, g.columns as int, wa.right - wa.left)
        },
    }
    &&& custom_rects(c, wa).len() <= i64::MAX
}

/// A rectangle moved by an offset.
pub open spec fn offset_rect(r: Rect, dx: int, dy: int) -> Rect {
    Rect {
        left: (r.left + dx) as i32,
        top: (r.top + dy) as i32,
        right: (r.right + dx) as i32,
        bottom: (r.bottom + dy) as i32,
    }
}

/// Moving the rectangle by the offset stays in `i32`.
pub open spec fn offset_fits(r: Rect, dx: int, dy: int) -> bool {
    &&& i32::MIN <= r.left + dx <= i32::MAX
    &&& i32::MIN <= r.top + dy <= i32::MAX
    &&& i32::MIN <= r.right + dx <= i32::MAX
    &&& i32::MIN <= r.bottom + dy <= i32::MAX
}

/// A layout bound to a work area, with the windows assigned to its zones.
pub struct WorkArea {
    device_key: String,
    work_area_rect: Rect,
    layout: Layout,
    assigned_windows: LayoutAssignedWindows,
}

fn offset(r: Rect, dx: i32, dy: i32) -> (o: Rect)
    requires
        offset_fits(r, dx as int, dy as int),
    ensures
        o == offset_rect(r, dx as int, dy as int),
{
    Rect::new(r.left + dx, r.top + dy, r.right + dx, r.bottom + dy)
}

fn canvas_rects(zones: &Vec<CanvasZoneRect>) -> (rs: Vec<Rect>)
    requires
        forall|i: int|
            0 <= i < zones@.len() ==> i32::MIN <= (#[trigger] zones@[i]).x + zones@[i].width <= i32::MAX
                && i32::MIN <= zones@[i].y + zones@[i].height <= i32::MAX,
    ensures
        rs@ == zones@.map_values(|z: CanvasZoneRect| canvas_rect(z)),
{
    let mut rs: Vec<Rect> = Vec::new();
    let mut i: usize = 0;
    while i < zones.len()
        invariant
            i <= zones@.len(),
            forall|k: int|
                0 <= k < zones@.len() ==> i32::MIN <= (#[trigger] zones@[k]).x + zones@[k].width <= i32::MAX
                    && i32::MIN <= zones@[k].y + zones@[k].height <= i32::MAX,
            rs@ == zones@.take(i as int).map_values(|z: CanvasZoneRect| canvas_rect(z)),
        decreases zones@.len() - i,
    {
        let z = zones[i];
        proof {
            assert(zones@[i as int] == z);
        }
        rs.push(Rect::new(z.x, z.y, z.x + z.width, z.y + z.height));
        i = i + 1;
        proof {
            assert(rs@ =~= zones@.take(i as int).map_values(|z: CanvasZoneRect| canvas_rect(z)));
        }
    }
    proof {
        assert(zones@.take(i as int) =~= zones@);
    }
    rs
}

impl WorkArea {
    pub closed spec fn spec_device_key(self) -> Seq<char> {
        self.device_key@
    }

    pub closed spec fn spec_rect(self) -> Rect {
        self.work_area_rect
    }

    /// The layout's settings.
    pub closed spec fn spec_data(self) -> LayoutData {
        self.layout.spec_data()
    }

    /// The zones, relative to the work area.
    pub closed spec fn spec_zones(self) -> Seq<(Rect, i64)> {
        self.layout.spec_zones()
    }

    /// The windows assigned to zones.
    pub closed spec fn spec_windows(self) -> Map<u64, Seq<i64>> {
        self.assigned_windows.entries()
    }

    /// A work area with a standard layout; `None` when the layout cannot
    /// get as many zones as it asks for (a custom layout never can here).
    pub fn new(device_key: String, work_area_rect: Rect, layout_data: &StoredLayoutData) -> (r: Option<Self>)
        requires
            extent_fits(work_area_rect),
            template_fits(init_data_of(*layout_data), relative_rect(work_area_rect)),
        ensures
            match r {
                Some(wa) => {
                    &&& standard_zones(*layout_data, work_area_rect) == Some(wa.spec_zones())
                    &&& wa.spec_device_key() == device_key@
                    &&& wa.spec_rect() == work_area_rect
                    &&& wa.spec_windows() == Map::<u64, Seq<i64>>::empty()
                    &&& wa.spec_data().uuid@ == layout_data.uuid@
                    &&& wa.spec_data().layout_type == layout_data.layout_type
                    &&& wa.spec_data().sensitivity_radius == layout_data.sensitivity_radius
                    &&& wa.spec_data().zone_count == layout_data.zone_count
                },
                None => standard_zones(*layout_data, work_area_rect) is None,
            },
    {
        let init_data = LayoutData {
            uuid: layout_data.uuid.clone(),
            layout_type: layout_data.layout_type,
            show_spacing: layout_data.show_spacing,
            spacing: layout_data.spacing,
            zone_count: layout_data.zone_count,
            sensitivity_radius: layout_data.sensitivity_radius,
        };
        let mut layout = Layout::new(init_data);
        let relative = Rect::new(0, 0, work_area_rect.width(), work_area_rect.height());
        if !layout.init(relative) {
            return None;
        }
        Some(
            WorkArea {
                device_key,
                work_area_rect,
                layout,
                assigned_windows: LayoutAssignedWindows::new(),
            },
        )
    }

    /// A work area with a custom layout from the store: canvas zones as
    /// drawn, or a grid computed for the work area. `None` when the store
    /// has no such layout or one of its zones is invalid.
    pub fn new_custom(
        device_key: String,
        work_area_rect: Rect,
        layout_data: &StoredLayoutData,
        custom_layouts: &CustomLayoutsStore,
    ) -> (r: Option<Self>)
        requires
            extent_fits(work_area_rect),
            match str_get(custom_layouts.entries(), layout_data.uuid@) {
                Some(c) => custom_fits(c, work_area_rect),
                None => true,
            },
        ensures
            match str_get(custom_layouts.entries(), layout_data.uuid@) {
                None => r is None,
                Some(c) => {
                    let rs = custom_rects(c, work_area_rect);
                    let valid = forall|i: int| 0 <= i < rs.len() ==> pair_valid(#[trigger] rs[i], i as i64);
                    match r {
                        None => !valid,
                        Some(wa) => {
                            &&& valid
                            &&& wa.spec_zones() == Seq::new(rs.len(), |i: int| (rs[i], i as i64))
                            &&& wa.spec_device_key() == device_key@
                            &&& wa.spec_rect() == work_area_rect
                            &&& wa.spec_windows() == Map::<u64, Seq<i64>>::empty()
                            &&& wa.spec_data().uuid@ == layout_data.uuid@
                            &&& wa.spec_data().layout_type == ZoneSetLayoutType::Custom
                            &&& wa.spec_data().sensitivity_radius == layout_data.sensitivity_radius
                        },
                    }
                },
            },
    {
        let custom = match custom_layouts.get_layout(layout_data.uuid.as_str()) {
            Some(c) => c,
            None => {
                return None;
            },
        };
        let zones: Vec<Rect> = match &custom.info {
            CustomLayoutInfo::Canvas(canvas) => canvas_rects(&canvas.zones),
            CustomLayoutInfo::Grid(grid) => {
                let spacing = if grid.show_spacing {
                    grid.spacing
                } else {
                    0
                };
                let relative = Rect::new(0, 0, work_area_rect.width(), work_area_rect.height());
                let zs = calculate_grid_zones(relative, grid, spacing);
                let ghost pairs = zone_pairs(zs@);
                let mut rs: Vec<Rect> = Vec::new();
                let mut i: usize = 0;
                while i < zs.len()
                    invariant
                        i <= zs@.len(),
                        pairs == zone_pairs(zs@),
                        rs@ == pairs.take(i as int).map_values(|p: (Rect, i64)| p.0),
                    decreases zs@.len() - i,
                {
                    rs.push(zs[i].get_zone_rect());
                    proof {
                        assert(pairs[i as int] == zone_pair(zs@[i as int]));
                    }
                    i = i + 1;
                    proof {
                        assert(rs@ =~= pairs.take(i as int).map_values(|p: (Rect, i64)| p.0));
                    }
                }
                proof {
                    assert(pairs.take(i as int) =~= pairs);
                }
                rs
            },
        };
        let init_data = LayoutData {
            uuid: layout_data.uuid.clone(),
            layout_type: ZoneSetLayoutType::Custom,
            show_spacing: layout_data.show_spacing,
            spacing: layout_data.spacing,
            zone_count: zones.len() as i32,
            sensitivity_radius: layout_data.sensitivity_radius,
        };
        let mut layout = Layout::new(init_data);
        if !layout.init_custom(zones) {
            return None;
        }
        Some(
            WorkArea {
                device_key,
                work_area_rect,
                layout,
                assigned_windows: LayoutAssignedWindows::new(),
            },
        )
    }

    /// The zones under a point given in screen coordinates.
    pub fn zones_from_point(&self, screen_pt: Point, algorithm: OverlappingZonesAlgorithm) -> (ids: Vec<i64>)
        requires
            i32::MIN <= screen_pt.x - self.spec_rect().left <= i32::MAX,
            i32::MIN <= screen_pt.y - self.spec_rect().top <= i32::MAX,
        ensures
            ids@ == zones_at_point(
                self.spec_zones(),
                self.spec_data().sensitivity_radius as int,
                screen_pt.x - self.spec_rect().left,
                screen_pt.y - self.spec_rect().top,
                algorithm,
            ),
    {
        let relative = Point::new(screen_pt.x - self.work_area_rect.left, screen_pt.y - self.work_area_rect.top);
        self.layout.zones_from_point(relative, algorithm)
    }

    /// The bounding rectangle of the listed zones, in screen coordinates.
    pub fn get_zone_rect(&self, zones: &Vec<i64>) -> (r: Rect)
        requires
            offset_fits(
                combined_rect(self.spec_zones(), zones@),
                self.spec_rect().left as int,
                self.spec_rect().top as int,
            ),
        ensures
            r == offset_rect(
                combined_rect(self.spec_zones(), zones@),
                self.spec_rect().left as int,
                self.spec_rect().top as int,
            ),
    {
        let r = self.layout.get_combined_zones_rect(zones);
        offset(r, self.work_area_rect.left, self.work_area_rect.top)
    }

    /// Every zone's rectangle in screen coordinates, in zone order.
    pub fn zone_rects_screen(&self) -> (rs: Vec<Rect>)
        requires
            forall|i: int|
                0 <= i < self.spec_zones().len() ==> offset_fits(
                    #[trigger] self.spec_zones()[i].0,
                    self.spec_rect().left as int,
                    self.spec_rect().top as int,
                ),
        ensures
            rs@.len() == self.spec_zones().len(),
            forall|i: int|
                0 <= i < rs@.len() ==> #[trigger] rs@[i] == offset_rect(
                    self.spec_zones()[i].0,
                    self.spec_rect().left as int,
                    self.spec_rect().top as int,
                ),
    {
        let ox = self.work_area_rect.left;
        let oy = self.work_area_rect.top;
        let zs = self.layout.zones();
        let mut rs: Vec<Rect> = Vec::new();
        let mut i: usize = 0;
        while i < zs.len()
            invariant
                i <= zs@.len(),
                zone_pairs(zs@) == self.spec_zones(),
                ox == self.spec_rect().left,
                oy == self.spec_rect().top,
                forall|k: int|
                    0 <= k < self.spec_zones().len() ==> offset_fits(
                        #[trigger] self.spec_zones()[k].0,
                        self.spec_rect().left as int,
                        self.spec_rect().top as int,
                    ),
                rs@.len() == i,
                forall|k: int|
                    0 <= k < i ==> #[trigger] rs@[k] == offset_rect(
                        self.spec_zones()[k].0,
                        ox as int,
                        oy as int,
                    ),
            decreases zs@.len() - i,
        {
            proof {
                assert(zone_pairs(zs@)[i as int] == zone_pair(zs@[i as int]));
                assert(offset_fits(self.spec_zones()[i as int].0, ox as int, oy as int));
            }
            rs.push(offset(zs[i].get_zone_rect(), ox, oy));
            i = i + 1;
        }
        rs
    }

    /// Every zone's rectangle relative to the work area, in zone order.
    pub fn zone_rects_relative(&self) -> (rs: Vec<Rect>)
        ensures
            rs@ == self.spec_zones().map_values(|p: (Rect, i64)| p.0),
    {
        let zs = self.layout.zones();
        let ghost pairs = zone_pairs(zs@);
        let mut rs: Vec<Rect> = Vec::new();
        let mut i: usize = 0;
        while i < zs.len()
            invariant
                i <= zs@.len(),
                pairs == zone_pairs(zs@),
                rs@ == pairs.take(i as int).map_values(|p: (Rect, i64)| p.0),
            decreases zs@.len() - i,
        {
            rs.push(zs[i].get_zone_rect());
            proof {
                assert(pairs[i as int] == zone_pair(zs@[i as int]));
            }
            i = i + 1;
            proof {
                assert(rs@ =~= pairs.take(i as int).map_values(|p: (Rect, i64)| p.0));
            }
        }
        proof {
            assert(pairs.take(i as int) =~= pairs);
        }
        rs
    }

    /// Assigns a window to zones, replacing what it had.
    pub fn assign_window(&mut self, window: u64, zones: Vec<i64>)
        ensures
            final(self).spec_windows() == old(self).spec_windows().insert(window, zones@),
            final(self).spec_zones() == old(self).spec_zones(),
            final(self).spec_rect() == old(self).spec_rect(),
            final(self).spec_data() == old(self).spec_data(),
            final(self).spec_device_key() == old(self).spec_device_key(),
    {
        self.assigned_windows.assign(window, zones);
    }

    /// Forgets a window.
    pub fn unassign_window(&mut self, window: u64)
        ensures
            final(self).spec_windows() == old(self).spec_windows().remove(window),
            final(self).spec_zones() == old(self).spec_zones(),
            final(self).spec_rect() == old(self).spec_rect(),
            final(self).spec_data() == old(self).spec_data(),
            final(self).spec_device_key() == old(self).spec_device_key(),
    {
        self.assigned_windows.dismiss(window);
    }

    /// The zones a window is assigned to.
    pub fn get_window_zones(&self, window: u64) -> (z: Vec<i64>)
        ensures
            z@ == zones_of_window(self.spec_windows(), window),
    {
        self.assigned_windows.get_zone_index_set_from_window(window)
    }

    pub fn zone_count(&self) -> (n: usize)
        ensures
            n == self.spec_zones().len(),
    {
        self.layout.zones().len()
    }

    pub fn layout(&self) -> (l: &Layout)
        ensures
            l.spec_zones() == self.spec_zones(),
            l.spec_data() == self.spec_data(),
    {
        &self.layout
    }

    pub fn device_key(&self) -> (s: &str)
        ensures
            s@ == self.spec_device_key(),
    {
        self.device_key.as_str()
    }

    pub fn work_area_rect(&self) -> (r: Rect)
        ensures
            r == self.spec_rect(),
    {
        self.work_area_rect
    }

    pub fn layout_id(&self) -> (s: &str)
        ensures
            s@ == self.spec_data().uuid@,
    {
        self.layout.id()
    }
}

} // verus!
