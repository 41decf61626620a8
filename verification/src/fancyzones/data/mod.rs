//! Stored layout data: layout kinds, monitor identities, device ids and the
//! stores of hotkeys, default, custom and applied layouts.

pub mod defaults;
pub mod ids;
pub mod keyed;
pub mod stores;
pub mod loading;


use vstd::prelude::*;

verus! {

/// The kinds of layout.
#[derive(Debug, Clone, Copy, PartialEq, Eq, Structural, Hash)]
pub enum ZoneSetLayoutType {
    Blank,
    Focus,
    Columns,
    Rows,
    Grid,
    PriorityGrid,
    Custom,
}

/// The name a layout kind is stored under.
pub open spec fn layout_type_name(t: ZoneSetLayoutType) -> Seq<char> {
    match t {
        ZoneSetLayoutType::Blank => "blank"@,
        ZoneSetLayoutType::Focus => "focus"@,
        ZoneSetLayoutType::Columns => "columns"@,
        ZoneSetLayoutType::Rows => "rows"@,
        ZoneSetLayoutType::Grid => "grid"@,
        ZoneSetLayoutType::PriorityGrid => "priority-grid"@,
        ZoneSetLayoutType::Custom => "custom"@,
    }
}

/// The layout kind a stored name denotes.
pub open spec fn layout_type_of(s: Seq<char>) -> Option<ZoneSetLayoutType> {
    if s == "blank"@ {
        Some(ZoneSetLayoutType::Blank)
    } else if s == "focus"@ {
        Some(ZoneSetLayoutType::Focus)
    } else if s == "columns"@ {
        Some(ZoneSetLayoutType::Columns)
    } else if s == "rows"@ {
        Some(ZoneSetLayoutType::Rows)
    } else if s == "grid"@ {
        Some(ZoneSetLayoutType::Grid)
    } else if s == "priority-grid"@ {
        Some(ZoneSetLayoutType::PriorityGrid)
    } else if s == "custom"@ {
        Some(ZoneSetLayoutType::Custom)
    } else {
        None
    }
}

/// The layouts built on a grid.
pub open spec fn is_grid_type(t: ZoneSetLayoutType) -> bool {
    t == ZoneSetLayoutType::Columns || t == ZoneSetLayoutType::Rows || t == ZoneSetLayoutType::Grid
        || t == ZoneSetLayoutType::PriorityGrid
}

impl ZoneSetLayoutType {
    pub fn to_string_repr(&self) -> (s: &'static str)
        ensures
            s@ == layout_type_name(*self),
    {
        match self {
            Self::Blank => "blank",
            Self::Focus => "focus",
            Self::Columns => "columns",
            Self::Rows => "rows",
            Self::Grid => "grid",
            Self::PriorityGrid => "priority-grid",
            Self::Custom => "custom",
        }
    }

    pub fn from_string(s: &str) -> (t: Option<Self>)
        ensures
            t == layout_type_of(s@),
    {
        if crate::text::str_eq(s, "blank") {
            Some(Self::Blank)
        } else if crate::text::str_eq(s, "focus") {
            Some(Self::Focus)
        } else if crate::text::str_eq(s, "columns") {
            Some(Self::Columns)
        } else if crate::text::str_eq(s, "rows") {
            Some(Self::Rows)
        } else if crate::text::str_eq(s, "grid") {
            Some(Self::Grid)
        } else if crate::text::str_eq(s, "priority-grid") {
            Some(Self::PriorityGrid)
        } else if crate::text::str_eq(s, "custom") {
            Some(Self::Custom)
        } else {
            None
        }
    }

    /// All layout kinds but the blank and custom ones.
    pub fn template_types() -> (v: Vec<Self>)
        ensures
            v@ == seq![
                ZoneSetLayoutType::Focus,
                ZoneSetLayoutType::Columns,
                ZoneSetLayoutType::Rows,
                ZoneSetLayoutType::Grid,
                ZoneSetLayoutType::PriorityGrid,
            ],
    {
        let mut v = Vec::new();
        v.push(Self::Focus);
        v.push(Self::Columns);
        v.push(Self::Rows);
        v.push(Self::Grid);
        v.push(Self::PriorityGrid);
        proof {
            assert(v@ =~= seq![
                ZoneSetLayoutType::Focus,
                ZoneSetLayoutType::Columns,
                ZoneSetLayoutType::Rows,
                ZoneSetLayoutType::Grid,
                ZoneSetLayoutType::PriorityGrid,
            ]);
        }
        v
    }

    /// The layout kinds built on a grid.
    pub fn grid_types() -> (v: Vec<Self>)
        ensures
            v@ == seq![
                ZoneSetLayoutType::Columns,
                ZoneSetLayoutType::Rows,
                ZoneSetLayoutType::Grid,
                ZoneSetLayoutType::PriorityGrid,
            ],
    {
        let mut v = Vec::new();
        v.push(Self::Columns);
        v.push(Self::Rows);
        v.push(Self::Grid);
        v.push(Self::PriorityGrid);
        proof {
            assert(v@ =~= seq![
                ZoneSetLayoutType::Columns,
                ZoneSetLayoutType::Rows,
                ZoneSetLayoutType::Grid,
                ZoneSetLayoutType::PriorityGrid,
            ]);
        }
        v
    }
}

/// Reading back the stored name of a layout kind gives the same kind.
pub proof fn lemma_layout_type_roundtrip(t: ZoneSetLayoutType)
    ensures
        layout_type_of(layout_type_name(t)) == Some(t),
{
    reveal_strlit("blank");
    reveal_strlit("focus");
    reveal_strlit("columns");
    reveal_strlit("rows");
    reveal_strlit("grid");
    reveal_strlit("priority-grid");
    reveal_strlit("custom");
    assert("blank"@[0] != "focus"@[0]);
    assert("blank"@[0] != "columns"@[0]);
    assert("blank"@[0] != "rows"@[0]);
    assert("blank"@[0] != "grid"@[0]);
    assert("blank"@[0] != "priority-grid"@[0]);
    assert("blank"@[0] != "custom"@[0]);
    assert("focus"@[0] != "columns"@[0]);
    assert("focus"@[0] != "rows"@[0]);
    assert("focus"@[0] != "grid"@[0]);
    assert("focus"@[0] != "priority-grid"@[0]);
    assert("focus"@[0] != "custom"@[0]);
    assert("columns"@[1] != "custom"@[1]);
    assert("columns"@[0] != "rows"@[0]);
    assert("columns"@[0] != "grid"@[0]);
    assert("columns"@[0] != "priority-grid"@[0]);
    assert("rows"@[0] != "grid"@[0]);
    assert("rows"@[0] != "priority-grid"@[0]);
    assert("rows"@[0] != "custom"@[0]);
    assert("grid"@[0] != "priority-grid"@[0]);
    assert("grid"@[0] != "custom"@[0]);
    assert("priority-grid"@[0] != "custom"@[0]);
}

/// How a custom layout is described.
#[derive(Debug, Clone, Copy, PartialEq, Eq, Structural)]
pub enum CustomLayoutType {
    Grid,
    Canvas,
}

/// A zone of a canvas layout.
#[derive(Debug, Clone, Copy, PartialEq, Eq, Structural)]
pub struct CanvasZoneRect {
    pub x: i32,
    pub y: i32,
    pub width: i32,
    pub height: i32,
}

/// A canvas layout: freely placed zones on a reference work area.
#[derive(Debug, Clone, PartialEq, Eq)]
pub struct CanvasLayoutInfo {
    pub last_work_area_width: i32,
    pub last_work_area_height: i32,
    pub zones: Vec<CanvasZoneRect>,
    pub sensitivity_radius: i32,
}

/// A grid layout: row and column sizes in hundredths of a percent, and the
/// zone each cell belongs to.
#[derive(Debug, Clone, PartialEq, Eq)]
pub struct GridLayoutInfo {
    pub rows: i32,
    pub columns: i32,
    pub rows_percents: Vec<i32>,
    pub columns_percents: Vec<i32>,
    pub cell_child_map: Vec<Vec<i32>>,
    pub show_spacing: bool,
    pub spacing: i32,
    pub sensitivity_radius: i32,
}

impl GridLayoutInfo {
    /// The cell map as sequences.
    pub open spec fn cells(&self) -> Seq<Seq<i32>> {
        self.cell_child_map@.map_values(|r: Vec<i32>| r@)
    }

    /// A `rows` x `columns` grid of zeros.
    pub fn minimal(rows: i32, columns: i32) -> (g: Self)
        requires
            rows >= 0,
            columns >= 0,
        ensures
            g.rows == rows,
            g.columns == columns,
            g.rows_percents@ == Seq::new(rows as nat, |i: int| 0i32),
            g.columns_percents@ == Seq::new(columns as nat, |i: int| 0i32),
            g.cells().len() == rows,
            forall|r: int| 0 <= r < rows ==> #[trigger] g.cells()[r] == Seq::new(columns as nat, |i: int| 0i32),
            !g.show_spacing,
            g.spacing == 0,
            g.sensitivity_radius == 0,
    {
        let mut rows_percents: Vec<i32> = Vec::new();
        let mut i: i32 = 0;
        while i < rows
            invariant
                0 <= i <= rows,
                rows_percents@ == Seq::new(i as nat, |k: int| 0i32),
            decreases rows - i,
        {
            rows_percents.push(0);
            i = i + 1;
            proof {
                assert(rows_percents@ =~= Seq::new(i as nat, |k: int| 0i32));
            }
        }
        let mut columns_percents: Vec<i32> = Vec::new();
        let mut j: i32 = 0;
        while j < columns
            invariant
                0 <= j <= columns,
                columns_percents@ == Seq::new(j as nat, |k: int| 0i32),
            decreases columns - j,
        {
            columns_percents.push(0);
            j = j + 1;
            proof {
                assert(columns_percents@ =~= Seq::new(j as nat, |k: int| 0i32));
            }
        }
        let mut cell_child_map: Vec<Vec<i32>> = Vec::new();
        let mut r: i32 = 0;
        while r < rows
            invariant
                0 <= r <= rows,
                columns >= 0,
                cell_child_map@.len() == r,
                forall|k: int| 0 <= k < r ==> #[trigger] cell_child_map@[k]@ == Seq::new(columns as nat, |i: int| 0i32),
            decreases rows - r,
        {
            let mut row: Vec<i32> = Vec::new();
            let mut c: i32 = 0;
            while c < columns
                invariant
                    0 <= c <= columns,
                    row@ == Seq::new(c as nat, |k: int| 0i32),
                decreases columns - c,
            {
                row.push(0);
                c = c + 1;
                proof {
                    assert(row@ =~= Seq::new(c as nat, |k: int| 0i32));
                }
            }
            cell_child_map.push(row);
            r = r + 1;
        }
        let g = GridLayoutInfo {
            rows,
            columns,
            rows_percents,
            columns_percents,
            cell_child_map,
            show_spacing: false,
            spacing: 0,
            sensitivity_radius: 0,
        };
        proof {
            assert forall|k: int| 0 <= k < rows implies #[trigger] g.cells()[k] == Seq::new(columns as nat, |i: int| 0i32) by {
                assert(g.cells()[k] == g.cell_child_map@[k]@);
            }
        }
        g
    }

    /// One more than the largest zone index in the cell map (0 when empty).
    pub fn zone_count(&self) -> (n: i32)
        requires
            forall|r: int, c: int| 0 <= r < self.cells().len() && 0 <= c < self.cells()[r].len()
                ==> self.cells()[r][c] < i32::MAX,
        ensures
            forall|r: int, c: int| 0 <= r < self.cells().len() && 0 <= c < self.cells()[r].len()
                ==> self.cells()[r][c] < n,
            n == 0 || exists|r: int, c: int| 0 <= r < self.cells().len() && 0 <= c < self.cells()[r].len()
                && self.cells()[r][c] == n - 1,
            n >= 0,
    {
        let mut max_val: i32 = -1;
        let mut r: usize = 0;
        while r < self.cell_child_map.len()
            invariant
                r <= self.cells().len(),
                self.cells().len() == self.cell_child_map@.len(),
                forall|a: int| 0 <= a < self.cells().len() ==> #[trigger] self.cells()[a] == self.cell_child_map@[a]@,
                forall|a: int, c: int| 0 <= a < self.cells().len() && 0 <= c < self.cells()[a].len()
                    ==> self.cells()[a][c] < i32::MAX,
                max_val >= -1,
                forall|a: int, c: int| 0 <= a < r && 0 <= c < self.cells()[a].len() ==> self.cells()[a][c] <= max_val,
                max_val == -1 || exists|a: int, c: int| 0 <= a < r && 0 <= c < self.cells()[a].len()
                    && self.cells()[a][c] == max_val,
            decreases self.cells().len() - r,
        {
            let row = &self.cell_child_map[r];
            let mut c: usize = 0;
            while c < row.len()
                invariant
                    r < self.cells().len(),
                    self.cells()[r as int] == row@,
                    c <= row@.len(),
                    forall|a: int, k: int| 0 <= a < self.cells().len() && 0 <= k < self.cells()[a].len()
                        ==> self.cells()[a][k] < i32::MAX,
                    max_val >= -1,
                    forall|a: int, k: int| 0 <= a < r && 0 <= k < self.cells()[a].len() ==> self.cells()[a][k] <= max_val,
                    forall|k: int| 0 <= k < c ==> row@[k] <= max_val,
                    max_val == -1 || (exists|a: int, k: int| 0 <= a < r && 0 <= k < self.cells()[a].len()
                        && self.cells()[a][k] == max_val) || (exists|k: int| 0 <= k < c && row@[k] == max_val),
                decreases row@.len() - c,
            {
                if row[c] > max_val {
                    max_val = row[c];
                    proof {
                        assert(row@[c as int] == max_val);
                    }
                }
                c = c + 1;
            }
            proof {
                if max_val != -1 && !(exists|a: int, k: int| 0 <= a < r && 0 <= k < self.cells()[a].len()
                    && self.cells()[a][k] == max_val) {
                    let k = choose|k: int| 0 <= k < c && row@[k] == max_val;
                    assert(self.cells()[r as int][k] == max_val);
                }
            }
            r = r + 1;
        }
        proof {
            if max_val != -1 {
                let (a, c) = choose|a: int, c: int| 0 <= a < r && 0 <= c < self.cells()[a].len()
                    && self.cells()[a][c] == max_val;
                assert(self.cells()[a][c] < i32::MAX);
            }
        }
        max_val + 1
    }
}

/// The description of a custom layout.
#[derive(Debug, Clone, PartialEq, Eq)]
pub enum CustomLayoutInfo {
    Canvas(CanvasLayoutInfo),
    Grid(GridLayoutInfo),
}

/// A custom layout with its name.
#[derive(Debug, Clone, PartialEq, Eq)]
pub struct CustomLayoutData {
    pub name: String,
    pub layout_type: CustomLayoutType,
    pub info: CustomLayoutInfo,
}

/// The settings of a layout as stored.
#[derive(Debug, Clone, PartialEq, Eq)]
pub struct LayoutData {
    pub uuid: String,
    pub layout_type: ZoneSetLayoutType,
    pub show_spacing: bool,
    pub spacing: i32,
    pub zone_count: i32,
    pub sensitivity_radius: i32,
}

/// The default settings with the given uuid and kind.
pub open spec fn default_layout_data(uuid: Seq<char>, t: ZoneSetLayoutType, d: LayoutData) -> bool {
    &&& d.uuid@ == uuid
    &&& d.layout_type == t
    &&& d.show_spacing == defaults::SHOW_SPACING
    &&& d.spacing == defaults::SPACING
    &&& d.zone_count == defaults::ZONE_COUNT
    &&& d.sensitivity_radius == defaults::SENSITIVITY_RADIUS
}

impl LayoutData {
    /// A copy of the layout data.
    pub fn copy(&self) -> (d: Self)
        ensures
            d.uuid@ == self.uuid@,
            d.layout_type == self.layout_type,
            d.show_spacing == self.show_spacing,
            d.spacing == self.spacing,
            d.zone_count == self.zone_count,
            d.sensitivity_radius == self.sensitivity_radius,
    {
        LayoutData {
            uuid: self.uuid.clone(),
            layout_type: self.layout_type,
            show_spacing: self.show_spacing,
            spacing: self.spacing,
            zone_count: self.zone_count,
            sensitivity_radius: self.sensitivity_radius,
        }
    }
}

impl Default for LayoutData {
    fn default() -> (d: Self)
        ensures
            default_layout_data(Seq::empty(), ZoneSetLayoutType::PriorityGrid, d),
    {
        LayoutData {
            uuid: String::new(),
            layout_type: ZoneSetLayoutType::PriorityGrid,
            show_spacing: defaults::SHOW_SPACING,
            spacing: defaults::SPACING,
            zone_count: defaults::ZONE_COUNT,
            sensitivity_radius: defaults::SENSITIVITY_RADIUS,
        }
    }
}

/// The layout kind with its uuid.
#[derive(Debug, Clone, PartialEq, Eq)]
pub struct ZoneSetData {
    pub uuid: String,
    pub layout_type: ZoneSetLayoutType,
}

/// The layout applied to a device.
#[derive(Debug, Clone, PartialEq, Eq)]
pub struct DeviceInfoData {
    pub active_zone_set: ZoneSetData,
    pub show_spacing: bool,
    pub spacing: i32,
    pub zone_count: i32,
    pub sensitivity_radius: i32,
}

/// The zones an application's window was last placed in.
#[derive(Debug, Clone, PartialEq, Eq)]
pub struct AppZoneHistoryData {
    pub layout_id: String,
    pub work_area_id: ids::WorkAreaId,
    pub zone_index_set: Vec<i64>,
}

/// Whether the monitors are arranged side by side or stacked.
#[derive(Debug, Clone, Copy, PartialEq, Eq, Structural, Hash)]
pub enum MonitorConfigurationType {
    Horizontal,
    Vertical,
}

} // verus!
