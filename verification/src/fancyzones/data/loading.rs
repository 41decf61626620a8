//! Reading the layout stores from their JSON documents.

use vstd::prelude::*;
use crate::fancyzones::data::defaults;
use crate::fancyzones::data::keyed::{entries_view, lemma_put_view, str_keys_unique, vput};
use crate::fancyzones::data::stores::{
    AppliedLayouts, CustomLayoutsStore, DefaultLayouts, LayoutHotkeys, LayoutTemplate, LayoutTemplatesStore,
};
use crate::fancyzones::data::{
    layout_type_of, CanvasLayoutInfo, CanvasZoneRect, CustomLayoutData, CustomLayoutInfo, CustomLayoutType,
    GridLayoutInfo, LayoutData, ZoneSetLayoutType,
};
use crate::json::{as_array, as_bool, as_i64, as_str, bool_or, get_array, get_bool, get_i64, get_str, json_get, str_or, JsonValue};
use crate::text::{chars_of, push_char, push_str, str_eq};

verus! {

/// The hotkey an entry assigns: a key number and a non-empty layout id.
pub open spec fn hotkey_of(item: JsonValue) -> Option<(i32, String)> {
    let key: i32 = match as_i64(json_get(item, "key"@)) {
        Some(k) => k as i32,
        None => -1i32,
    };
    match as_str(json_get(item, "layout-id"@)) {
        Some(u) => if key >= 0 && u@.len() > 0 {
            Some((key, u))
        } else {
            None
        },
        None => None,
    }
}

/// The hotkeys the entries assign, later entries overriding earlier ones.
pub open spec fn hotkeys_of(items: Seq<JsonValue>) -> Map<i32, Seq<char>>
    decreases items.len(),
{
    if items.len() == 0 {
        Map::empty()
    } else {
        let prev = hotkeys_of(items.drop_last());
        match hotkey_of(items.last()) {
            Some((k, u)) => prev.insert(k, u@),
            None => prev,
        }
    }
}

/// The entries under a document's array member, or none.
pub open spec fn array_member(json: JsonValue, key: Seq<char>) -> Seq<JsonValue> {
    match as_array(json_get(json, key)) {
        Some(items) => items,
        None => Seq::empty(),
    }
}

/// What a layout's stored settings read as.
pub type LayoutView = (Seq<char>, ZoneSetLayoutType, bool, i32, i32, i32);

pub open spec fn layout_view(d: LayoutData) -> LayoutView {
    (d.uuid@, d.layout_type, d.show_spacing, d.spacing, d.zone_count, d.sensitivity_radius)
}

/// `layout_view` as a function value.
pub open spec fn layout_view_fn() -> spec_fn(LayoutData) -> LayoutView {
    |d: LayoutData| layout_view(d)
}

pub open spec fn i32_or(v: Option<i64>, d: i32) -> i32 {
    match v {
        Some(n) => n as i32,
        None => d,
    }
}

/// The kind a layout entry names; a priority grid when missing or unknown.
pub open spec fn entry_layout_type(val: JsonValue) -> ZoneSetLayoutType {
    match layout_type_of(str_or(as_str(json_get(val, "type"@)), "priority-grid"@)) {
        Some(t) => t,
        None => ZoneSetLayoutType::PriorityGrid,
    }
}

/// The settings of a layout entry, each falling back to its default.
pub open spec fn applied_layout_of(val: JsonValue) -> LayoutView {
    (
        str_or(as_str(json_get(val, "uuid"@)), ""@),
        entry_layout_type(val),
        bool_or(as_bool(json_get(val, "show-spacing"@)), defaults::SHOW_SPACING),
        i32_or(as_i64(json_get(val, "spacing"@)), defaults::SPACING),
        i32_or(as_i64(json_get(val, "zone-count"@)), defaults::ZONE_COUNT),
        i32_or(as_i64(json_get(val, "sensitivity-radius"@)), defaults::SENSITIVITY_RADIUS),
    )
}

/// A default layout entry: a custom layout keeps its uuid and the default
/// settings; a template layout drops the uuid and reads its settings.
pub open spec fn default_layout_of(val: JsonValue) -> LayoutView {
    let t = entry_layout_type(val);
    if t == ZoneSetLayoutType::Custom {
        (
            str_or(as_str(json_get(val, "uuid"@)), ""@),
            t,
            defaults::SHOW_SPACING,
            defaults::SPACING,
            defaults::ZONE_COUNT,
            defaults::SENSITIVITY_RADIUS,
        )
    } else {
        let a = applied_layout_of(val);
        (""@, t, a.2, a.3, a.4, a.5)
    }
}

/// The horizontal and vertical default layouts the entries set, later
/// entries overriding earlier ones.
pub open spec fn default_layouts_of(items: Seq<JsonValue>) -> (Option<LayoutView>, Option<LayoutView>)
    decreases items.len(),
{
    if items.len() == 0 {
        (None, None)
    } else {
        let prev = default_layouts_of(items.drop_last());
        let item = items.last();
        let config = str_or(as_str(json_get(item, "monitor-configuration-type"@)), ""@);
        match json_get(item, "layout"@) {
            Some(lv) => if config == "horizontal"@ {
                (Some(default_layout_of(lv)), prev.1)
            } else if config == "vertical"@ {
                (prev.0, Some(default_layout_of(lv)))
            } else {
                prev
            },
            None => prev,
        }
    }
}

pub open spec fn opt_layout_view(d: Option<LayoutData>) -> Option<LayoutView> {
    match d {
        Some(d) => Some(layout_view(d)),
        None => None,
    }
}

/// The key and layout an applied-layout entry gives: keyed by monitor and
/// virtual desktop, or by a legacy device id.
pub open spec fn applied_entry_of(item: JsonValue) -> Option<(Seq<char>, LayoutView)> {
    match json_get(item, "device"@) {
        Some(device) => {
            let key = str_or(as_str(json_get(device, "monitor"@)), ""@) + seq!['_'] + str_or(
                as_str(json_get(device, "virtual-desktop"@)),
                ""@,
            );
            match json_get(item, "applied-layout"@) {
                Some(lj) => Some((key, applied_layout_of(lj))),
                None => None,
            }
        },
        None => match as_str(json_get(item, "device-id"@)) {
            Some(id) => match json_get(item, "applied-layout"@) {
                Some(lj) => Some((id@, applied_layout_of(lj))),
                None => None,
            },
            None => None,
        },
    }
}

/// The applied layouts the entries give, later entries overriding earlier
/// ones.
pub open spec fn applied_layouts_of(items: Seq<JsonValue>) -> Seq<(Seq<char>, LayoutView)>
    decreases items.len(),
{
    if items.len() == 0 {
        Seq::empty()
    } else {
        let prev = applied_layouts_of(items.drop_last());
        match applied_entry_of(items.last()) {
            Some((k, v)) => vput(prev, k, v),
            None => prev,
        }
    }
}

/// The template an entry describes, if its kind is known.
pub open spec fn template_of(item: JsonValue) -> Option<LayoutTemplate> {
    match layout_type_of(str_or(as_str(json_get(item, "type"@)), ""@)) {
        Some(t) => Some(LayoutTemplate {
            layout_type: t,
            show_spacing: bool_or(as_bool(json_get(item, "show-spacing"@)), false),
            spacing: i32_or(as_i64(json_get(item, "spacing"@)), 0),
            zone_count: i32_or(as_i64(json_get(item, "zone-count"@)), 0),
            sensitivity_radius: i32_or(as_i64(json_get(item, "sensitivity-radius"@)), 0),
        }),
        None => None,
    }
}

pub open spec fn templates_of(items: Seq<JsonValue>) -> Seq<LayoutTemplate>
    decreases items.len(),
{
    if items.len() == 0 {
        Seq::empty()
    } else {
        let prev = templates_of(items.drop_last());
        match template_of(items.last()) {
            Some(t) => prev.push(t),
            None => prev,
        }
    }
}

pub(crate) fn str_or_exec(v: Option<&String>, d: &str) -> (s: String)
    ensures
        s@ == str_or(
            match v {
                Some(x) => Some(*x),
                None => None,
            },
            d@,
        ),
{
    match v {
        Some(x) => x.clone(),
        None => String::from_str(d),
    }
}

fn layout_type_exec(val: &JsonValue) -> (t: ZoneSetLayoutType)
    ensures
        t == entry_layout_type(*val),
{
    let type_str = str_or_exec(get_str(val, "type"), "priority-grid");
    match ZoneSetLayoutType::from_string(type_str.as_str()) {
        Some(t) => t,
        None => ZoneSetLayoutType::PriorityGrid,
    }
}

fn i32_or_exec(v: Option<i64>, d: i32) -> (r: i32)
    ensures
        r == i32_or(v, d),
{
    match v {
        Some(n) => n as i32,
        None => d,
    }
}

fn applied_layout_exec(val: &JsonValue) -> (d: LayoutData)
    ensures
        layout_view(d) == applied_layout_of(*val),
{
    LayoutData {
        uuid: str_or_exec(get_str(val, "uuid"), ""),
        layout_type: layout_type_exec(val),
        show_spacing: match get_bool(val, "show-spacing") {
            Some(b) => b,
            None => defaults::SHOW_SPACING,
        },
        spacing: i32_or_exec(get_i64(val, "spacing"), defaults::SPACING),
        zone_count: i32_or_exec(get_i64(val, "zone-count"), defaults::ZONE_COUNT),
        sensitivity_radius: i32_or_exec(get_i64(val, "sensitivity-radius"), defaults::SENSITIVITY_RADIUS),
    }
}

fn default_layout_exec(val: &JsonValue) -> (d: LayoutData)
    ensures
        layout_view(d) == default_layout_of(*val),
{
    let t = layout_type_exec(val);
    proof {
        reveal_strlit("");
    }
    if t == ZoneSetLayoutType::Custom {
        LayoutData {
            uuid: str_or_exec(get_str(val, "uuid"), ""),
            layout_type: t,
            show_spacing: defaults::SHOW_SPACING,
            spacing: defaults::SPACING,
            zone_count: defaults::ZONE_COUNT,
            sensitivity_radius: defaults::SENSITIVITY_RADIUS,
        }
    } else {
        let a = applied_layout_exec(val);
        LayoutData {
            uuid: String::new(),
            layout_type: t,
            show_spacing: a.show_spacing,
            spacing: a.spacing,
            zone_count: a.zone_count,
            sensitivity_radius: a.sensitivity_radius,
        }
    }
}

impl LayoutHotkeys {
    /// Reads the hotkeys from the `layout-hotkeys` array of a document,
    /// replacing the ones held.
    pub fn load_from_json(&mut self, json: &JsonValue)
        ensures
            final(self).entries() == hotkeys_of(array_member(*json, "layout-hotkeys"@)),
    {
        self.clear();
        match get_array(json, "layout-hotkeys") {
            Some(arr) => {
                let mut i: usize = 0;
                while i < arr.len()
                    invariant
                        i <= arr@.len(),
                        arr@ == array_member(*json, "layout-hotkeys"@),
                        self.entries() == hotkeys_of(arr@.take(i as int)),
                    decreases arr@.len() - i,
                {
                    let item = &arr[i];
                    proof {
                        assert(arr@.take(i + 1).drop_last() =~= arr@.take(i as int));
                    }
                    let uuid = get_str(item, "layout-id");
                    let key: i32 = match get_i64(item, "key") {
                        Some(k) => k as i32,
                        None => -1,
                    };
                    match uuid {
                        Some(u) => {
                            if key >= 0 && u.unicode_len() > 0 {
                                self.set_hotkey(key, u.clone());
                            }
                        },
                        None => {},
                    }
                    i = i + 1;
                }
                proof {
                    assert(arr@.take(i as int) =~= arr@);
                }
            },
            None => {},
        }
    }
}

impl DefaultLayouts {
    /// Reads the horizontal and vertical default layouts from the
    /// `default-layouts` array of a document.
    pub fn load_from_json(&mut self, json: &JsonValue)
        ensures
            (opt_layout_view(final(self).horizontal), opt_layout_view(final(self).vertical))
                == default_layouts_of(array_member(*json, "default-layouts"@)),
    {
        self.horizontal = None;
        self.vertical = None;
        match get_array(json, "default-layouts") {
            Some(arr) => {
                let mut i: usize = 0;
                while i < arr.len()
                    invariant
                        i <= arr@.len(),
                        arr@ == array_member(*json, "default-layouts"@),
                        (opt_layout_view(self.horizontal), opt_layout_view(self.vertical))
                            == default_layouts_of(arr@.take(i as int)),
                    decreases arr@.len() - i,
                {
                    let item = &arr[i];
                    proof {
                        assert(arr@.take(i + 1).drop_last() =~= arr@.take(i as int));
                    }
                    let config = str_or_exec(get_str(item, "monitor-configuration-type"), "");
                    match item.get("layout") {
                        Some(lv) => {
                            let data = default_layout_exec(lv);
                            if str_eq(config.as_str(), "horizontal") {
                                self.horizontal = Some(data);
                            } else if str_eq(config.as_str(), "vertical") {
                                self.vertical = Some(data);
                            }
                        },
                        None => {},
                    }
                    i = i + 1;
                }
                proof {
                    assert(arr@.take(i as int) =~= arr@);
                }
            },
            None => {},
        }
    }
}

impl AppliedLayouts {
    /// Reads the applied layouts from the `applied-layouts` array of a
    /// document, replacing the ones held.
    pub fn load_from_json(&mut self, json: &JsonValue)
        ensures
            entries_view(final(self).entries(), layout_view_fn())
                == applied_layouts_of(array_member(*json, "applied-layouts"@)),
    {
        self.clear();
        proof {
            assert(entries_view(self.entries(), layout_view_fn()) =~= Seq::<(Seq<char>, LayoutView)>::empty());
        }
        match get_array(json, "applied-layouts") {
            Some(arr) => {
                let mut i: usize = 0;
                while i < arr.len()
                    invariant
                        i <= arr@.len(),
                        arr@ == array_member(*json, "applied-layouts"@),
                        str_keys_unique(self.entries()),
                        entries_view(self.entries(), layout_view_fn()) == applied_layouts_of(
                            arr@.take(i as int),
                        ),
                    decreases arr@.len() - i,
                {
                    let item = &arr[i];
                    proof {
                        assert(arr@.take(i + 1).drop_last() =~= arr@.take(i as int));
                    }
                    match item.get("device") {
                        Some(device) => {
                            let monitor = str_or_exec(get_str(device, "monitor"), "");
                            let vd = str_or_exec(get_str(device, "virtual-desktop"), "");
                            let mut key = monitor.clone();
                            push_char(&mut key, '_');
                            push_str(&mut key, vd.as_str());
                            proof {
                                assert(key@ =~= monitor@ + seq!['_'] + vd@);
                            }
                            match item.get("applied-layout") {
                                Some(lj) => {
                                    let data = applied_layout_exec(lj);
                                    proof {
                                        lemma_put_view(self.entries(), key, data, layout_view_fn());
                                    }
                                    self.apply_layout(key, data);
                                },
                                None => {},
                            }
                        },
                        None => match get_str(item, "device-id") {
                            Some(id) => match item.get("applied-layout") {
                                Some(lj) => {
                                    let data = applied_layout_exec(lj);
                                    let key = id.clone();
                                    proof {
                                        lemma_put_view(self.entries(), key, data, layout_view_fn());
                                    }
                                    self.apply_layout(key, data);
                                },
                                None => {},
                            },
                            None => {},
                        },
                    }
                    i = i + 1;
                }
                proof {
                    assert(arr@.take(i as int) =~= arr@);
                }
            },
            None => {},
        }
    }
}

impl LayoutTemplatesStore {
    /// Reads the templates of known kinds from the `layout-templates` array
    /// of a document, replacing the ones held.
    pub fn load_from_json(&mut self, json: &JsonValue)
        ensures
            final(self).entries() == templates_of(array_member(*json, "layout-templates"@)),
    {
        self.clear();
        proof {
            assert(self.entries() =~= Seq::<LayoutTemplate>::empty());
        }
        match get_array(json, "layout-templates") {
            Some(arr) => {
                let mut i: usize = 0;
                while i < arr.len()
                    invariant
                        i <= arr@.len(),
                        arr@ == array_member(*json, "layout-templates"@),
                        self.entries() == templates_of(arr@.take(i as int)),
                    decreases arr@.len() - i,
                {
                    let item = &arr[i];
                    proof {
                        assert(arr@.take(i + 1).drop_last() =~= arr@.take(i as int));
                    }
                    let type_str = str_or_exec(get_str(item, "type"), "");
                    match ZoneSetLayoutType::from_string(type_str.as_str()) {
                        Some(t) => {
                            self.add_template(LayoutTemplate {
                                layout_type: t,
                                show_spacing: match get_bool(item, "show-spacing") {
                                    Some(b) => b,
                                    None => false,
                                },
                                spacing: i32_or_exec(get_i64(item, "spacing"), 0),
                                zone_count: i32_or_exec(get_i64(item, "zone-count"), 0),
                                sensitivity_radius: i32_or_exec(get_i64(item, "sensitivity-radius"), 0),
                            });
                        },
                        None => {},
                    }
                    i = i + 1;
                }
                proof {
                    assert(arr@.take(i as int) =~= arr@);
                }
            },
            None => {},
        }
    }
}

} // verus!

verus! {

/// A canvas zone entry: `X`, `Y`, `width` and `height` all integers.
pub open spec fn canvas_zone_of(z: JsonValue) -> Option<CanvasZoneRect> {
    match (
        as_i64(json_get(z, "X"@)),
        as_i64(json_get(z, "Y"@)),
        as_i64(json_get(z, "width"@)),
        as_i64(json_get(z, "height"@)),
    ) {
        (Some(x), Some(y), Some(w), Some(h)) => Some(
            CanvasZoneRect { x: x as i32, y: y as i32, width: w as i32, height: h as i32 },
        ),
        _ => None,
    }
}

/// The well-formed canvas zones, in order.
pub open spec fn canvas_zones_of(items: Seq<JsonValue>) -> Seq<CanvasZoneRect>
    decreases items.len(),
{
    if items.len() == 0 {
        Seq::empty()
    } else {
        let prev = canvas_zones_of(items.drop_last());
        match canvas_zone_of(items.last()) {
            Some(z) => prev.push(z),
            None => prev,
        }
    }
}

/// The integers among the items, in order.
pub open spec fn ints_of(items: Seq<JsonValue>) -> Seq<i32>
    decreases items.len(),
{
    if items.len() == 0 {
        Seq::empty()
    } else {
        let prev = ints_of(items.drop_last());
        match as_i64(Some(items.last())) {
            Some(n) => prev.push(n as i32),
            None => prev,
        }
    }
}

/// Each row's integers; a row that is no array is empty.
pub open spec fn cell_rows_of(items: Seq<JsonValue>) -> Seq<Seq<i32>> {
    Seq::new(
        items.len(),
        |i: int| match as_array(Some(items[i])) {
            Some(cells) => ints_of(cells),
            None => Seq::empty(),
        },
    )
}

/// A custom layout as plain values: name, kind, and the canvas or grid
/// description.
pub type CanvasView = (i32, i32, Seq<CanvasZoneRect>, i32);

pub type GridView = (i32, i32, Seq<i32>, Seq<i32>, Seq<Seq<i32>>, bool, i32, i32);

pub type CustomView = (Seq<char>, CustomLayoutType, Option<CanvasView>, Option<GridView>);

pub open spec fn custom_view(d: CustomLayoutData) -> CustomView {
    match d.info {
        CustomLayoutInfo::Canvas(c) => (
            d.name@,
            d.layout_type,
            Some((c.last_work_area_width, c.last_work_area_height, c.zones@, c.sensitivity_radius)),
            None,
        ),
        CustomLayoutInfo::Grid(g) => (
            d.name@,
            d.layout_type,
            None,
            Some((
                g.rows,
                g.columns,
                g.rows_percents@,
                g.columns_percents@,
                g.cells(),
                g.show_spacing,
                g.spacing,
                g.sensitivity_radius,
            )),
        ),
    }
}

pub open spec fn custom_view_fn() -> spec_fn(CustomLayoutData) -> CustomView {
    |d: CustomLayoutData| custom_view(d)
}

/// A custom layout entry: it needs a uuid, an `info` member and the kind
/// `canvas` or `grid`; missing numbers read as 0.
pub open spec fn custom_layout_of(val: JsonValue) -> Option<(Seq<char>, CustomView)> {
    match (as_str(json_get(val, "uuid"@)), json_get(val, "info"@)) {
        (Some(uuid), Some(info)) => {
            let name = str_or(as_str(json_get(val, "name"@)), ""@);
            let kind = str_or(as_str(json_get(val, "type"@)), ""@);
            if kind == "canvas"@ {
                Some((
                    uuid@,
                    (
                        name,
                        CustomLayoutType::Canvas,
                        Some((
                            i32_or(as_i64(json_get(info, "ref-width"@)), 0),
                            i32_or(as_i64(json_get(info, "ref-height"@)), 0),
                            canvas_zones_of(array_member(info, "zones"@)),
                            i32_or(as_i64(json_get(info, "sensitivity-radius"@)), 0),
                        )),
                        None,
                    ),
                ))
            } else if kind == "grid"@ {
                Some((
                    uuid@,
                    (
                        name,
                        CustomLayoutType::Grid,
                        None,
                        Some((
                            i32_or(as_i64(json_get(info, "rows"@)), 0),
                            i32_or(as_i64(json_get(info, "columns"@)), 0),
                            ints_of(array_member(info, "rows-percentage"@)),
                            ints_of(array_member(info, "columns-percentage"@)),
                            cell_rows_of(array_member(info, "cell-child-map"@)),
                            bool_or(as_bool(json_get(info, "show-spacing"@)), false),
                            i32_or(as_i64(json_get(info, "spacing"@)), 0),
                            i32_or(as_i64(json_get(info, "sensitivity-radius"@)), 0),
                        )),
                    ),
                ))
            } else {
                None
            }
        },
        _ => None,
    }
}

/// The custom layouts the entries give, later entries overriding earlier
/// ones with the same uuid.
pub open spec fn custom_layouts_of(items: Seq<JsonValue>) -> Seq<(Seq<char>, CustomView)>
    decreases items.len(),
{
    if items.len() == 0 {
        Seq::empty()
    } else {
        let prev = custom_layouts_of(items.drop_last());
        match custom_layout_of(items.last()) {
            Some((k, v)) => vput(prev, k, v),
            None => prev,
        }
    }
}

fn canvas_zones_exec(items: &Vec<JsonValue>) -> (zs: Vec<CanvasZoneRect>)
    ensures
        zs@ == canvas_zones_of(items@),
{
    let mut zs: Vec<CanvasZoneRect> = Vec::new();
    let mut i: usize = 0;
    while i < items.len()
        invariant
            i <= items@.len(),
            zs@ == canvas_zones_of(items@.take(i as int)),
        decreases items@.len() - i,
    {
        let z = &items[i];
        proof {
            assert(items@.take(i + 1).drop_last() =~= items@.take(i as int));
        }
        match (get_i64(z, "X"), get_i64(z, "Y"), get_i64(z, "width"), get_i64(z, "height")) {
            (Some(x), Some(y), Some(w), Some(h)) => {
                zs.push(CanvasZoneRect { x: x as i32, y: y as i32, width: w as i32, height: h as i32 });
            },
            _ => {},
        }
        i = i + 1;
    }
    proof {
        assert(items@.take(i as int) =~= items@);
    }
    zs
}

fn ints_exec(items: &Vec<JsonValue>) -> (v: Vec<i32>)
    ensures
        v@ == ints_of(items@),
{
    let mut v: Vec<i32> = Vec::new();
    let mut i: usize = 0;
    while i < items.len()
        invariant
            i <= items@.len(),
            v@ == ints_of(items@.take(i as int)),
        decreases items@.len() - i,
    {
        proof {
            assert(items@.take(i + 1).drop_last() =~= items@.take(i as int));
        }
        match items[i].as_i64() {
            Some(n) => v.push(n as i32),
            None => {},
        }
        i = i + 1;
    }
    proof {
        assert(items@.take(i as int) =~= items@);
    }
    v
}

fn ints_member(info: &JsonValue, key: &str) -> (v: Vec<i32>)
    ensures
        v@ == ints_of(array_member(*info, key@)),
{
    match get_array(info, key) {
        Some(a) => ints_exec(a),
        None => Vec::new(),
    }
}

fn cell_rows_exec(info: &JsonValue) -> (rows: Vec<Vec<i32>>)
    ensures
        rows@.map_values(|r: Vec<i32>| r@) == cell_rows_of(array_member(*info, "cell-child-map"@)),
{
    let mut rows: Vec<Vec<i32>> = Vec::new();
    match get_array(info, "cell-child-map") {
        Some(items) => {
            let mut i: usize = 0;
            while i < items.len()
                invariant
                    i <= items@.len(),
                    items@ == array_member(*info, "cell-child-map"@),
                    rows@.map_values(|r: Vec<i32>| r@) == cell_rows_of(items@).take(i as int),
                decreases items@.len() - i,
            {
                let row = match items[i].as_array() {
                    Some(cells) => ints_exec(cells),
                    None => Vec::new(),
                };
                assert(row@ == cell_rows_of(items@)[i as int]);
                let ghost before = rows@;
                rows.push(row);
                proof {
                    assert(rows@.map_values(|r: Vec<i32>| r@) =~= before.map_values(|r: Vec<i32>| r@).push(row@));
                }
                i = i + 1;
                proof {
                    assert(rows@.map_values(|r: Vec<i32>| r@) =~= cell_rows_of(items@).take(i as int));
                }
            }
            proof {
                assert(cell_rows_of(items@).take(i as int) =~= cell_rows_of(items@));
            }
        },
        None => {
            proof {
                assert(rows@.map_values(|r: Vec<i32>| r@) =~= cell_rows_of(Seq::empty()));
            }
        },
    }
    rows
}

/// Reads one custom layout entry into its uuid and layout.
pub fn parse_custom_layout(val: &JsonValue) -> (r: Option<(String, CustomLayoutData)>)
    ensures
        match r {
            Some((u, d)) => custom_layout_of(*val) == Some((u@, custom_view(d))),
            None => custom_layout_of(*val) is None,
        },
{
    let uuid = match get_str(val, "uuid") {
        Some(u) => u.clone(),
        None => return None,
    };
    let info = match val.get("info") {
        Some(i) => i,
        None => return None,
    };
    let name = str_or_exec(get_str(val, "name"), "");
    let kind = str_or_exec(get_str(val, "type"), "");
    if str_eq(kind.as_str(), "canvas") {
        let zones = match get_array(info, "zones") {
            Some(a) => canvas_zones_exec(a),
            None => Vec::new(),
        };
        let c = CanvasLayoutInfo {
            last_work_area_width: i32_or_exec(get_i64(info, "ref-width"), 0),
            last_work_area_height: i32_or_exec(get_i64(info, "ref-height"), 0),
            zones,
            sensitivity_radius: i32_or_exec(get_i64(info, "sensitivity-radius"), 0),
        };
        Some((uuid, CustomLayoutData { name, layout_type: CustomLayoutType::Canvas, info: CustomLayoutInfo::Canvas(c) }))
    } else if str_eq(kind.as_str(), "grid") {
        let g = GridLayoutInfo {
            rows: i32_or_exec(get_i64(info, "rows"), 0),
            columns: i32_or_exec(get_i64(info, "columns"), 0),
            rows_percents: ints_member(info, "rows-percentage"),
            columns_percents: ints_member(info, "columns-percentage"),
            cell_child_map: cell_rows_exec(info),
            show_spacing: match get_bool(info, "show-spacing") {
                Some(b) => b,
                None => false,
            },
            spacing: i32_or_exec(get_i64(info, "spacing"), 0),
            sensitivity_radius: i32_or_exec(get_i64(info, "sensitivity-radius"), 0),
        };
        Some((uuid, CustomLayoutData { name, layout_type: CustomLayoutType::Grid, info: CustomLayoutInfo::Grid(g) }))
    } else {
        None
    }
}

impl CustomLayoutsStore {
    /// Reads the custom layouts from the `custom-layouts` array of a
    /// document, replacing the ones held; malformed entries are skipped.
    pub fn load_from_json(&mut self, json: &JsonValue)
        ensures
            entries_view(final(self).entries(), custom_view_fn()) == custom_layouts_of(
                array_member(*json, "custom-layouts"@),
            ),
    {
        self.clear();
        proof {
            assert(entries_view(self.entries(), custom_view_fn()) =~= Seq::<(Seq<char>, CustomView)>::empty());
        }
        match get_array(json, "custom-layouts") {
            Some(arr) => {
                let mut i: usize = 0;
                while i < arr.len()
                    invariant
                        i <= arr@.len(),
                        arr@ == array_member(*json, "custom-layouts"@),
                        str_keys_unique(self.entries()),
                        entries_view(self.entries(), custom_view_fn()) == custom_layouts_of(arr@.take(i as int)),
                    decreases arr@.len() - i,
                {
                    proof {
                        assert(arr@.take(i + 1).drop_last() =~= arr@.take(i as int));
                    }
                    match parse_custom_layout(&arr[i]) {
                        Some((uuid, data)) => {
                            proof {
                                lemma_put_view(self.entries(), uuid, data, custom_view_fn());
                            }
                            self.set_layout(uuid, data);
                        },
                        None => {},
                    }
                    i = i + 1;
                }
                proof {
                    assert(arr@.take(i as int) =~= arr@);
                }
            },
            None => {},
        }
    }
}

} // verus!
