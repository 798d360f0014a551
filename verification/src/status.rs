//! Read-only snapshots for the status side-channel, and the map raster's
//! vector-image rendering.
//!
//! The side-channel thread never touches the game state directly: the tick
//! owner builds these plain-value snapshots inside its own tick and hands
//! them over, so every view is tick-aligned and consistent.

use vstd::prelude::*;
use crate::ledger::WorkerAssignment;
use crate::state::{GameState, DebugFlag};

verus! {

/// Aggregate worker counters.
#[derive(Clone, Copy, Debug, PartialEq, Eq, Structural)]
pub struct WorkerStatus {
    pub total: usize,
    pub gathering: usize,
    pub idle: usize,
    pub building: usize,
}

impl Default for WorkerStatus {
    fn default() -> (r: WorkerStatus)
        ensures
            r.total == 0 && r.gathering == 0 && r.idle == 0 && r.building == 0,
    {
        WorkerStatus { total: 0, gathering: 0, idle: 0, building: 0 }
    }
}

/// One unit dot of the map raster.
#[derive(Clone, Debug)]
pub struct UnitInfo {
    pub x: i32,
    pub y: i32,
    pub unit_type: String,
    pub is_ally: bool,
}

/// One resource dot of the map raster.
#[derive(Clone, Debug)]
pub struct ResourceInfo {
    pub x: i32,
    pub y: i32,
    pub is_gas: bool,
    pub amount: i32,
}

/// The walkability and exploration raster with unit and resource overlays.
#[derive(Clone, Debug)]
pub struct MapData {
    pub width: usize,
    pub height: usize,
    pub walkability: Vec<Vec<bool>>,
    pub explored: Vec<Vec<bool>>,
    pub units: Vec<UnitInfo>,
    pub resources: Vec<ResourceInfo>,
}

impl Default for MapData {
    fn default() -> (r: MapData)
        ensures
            r.width == 0 && r.height == 0,
            r.walkability@.len() == 0 && r.explored@.len() == 0,
            r.units@.len() == 0 && r.resources@.len() == 0,
    {
        MapData {
            width: 0,
            height: 0,
            walkability: Vec::new(),
            explored: Vec::new(),
            units: Vec::new(),
            resources: Vec::new(),
        }
    }
}

/// Number of workers in the first `i` entries.
pub open spec fn count_total(s: Seq<crate::units::OwnUnit>, i: int) -> int
    decreases i,
{
    if i <= 0 { 0 } else {
        count_total(s, i - 1)
            + if s[i - 1].kind == crate::units::UnitKind::Drone { 1int } else { 0int }
    }
}

/// Number of gathering workers in the first `i` entries.
pub open spec fn count_gathering(s: Seq<crate::units::OwnUnit>, i: int) -> int
    decreases i,
{
    if i <= 0 { 0 } else {
        count_gathering(s, i - 1)
            + if s[i - 1].kind == crate::units::UnitKind::Drone && s[i - 1].is_gathering {
                1int
            } else {
                0int
            }
    }
}

/// Number of idle workers in the first `i` entries.
pub open spec fn count_idle(s: Seq<crate::units::OwnUnit>, i: int) -> int
    decreases i,
{
    if i <= 0 { 0 } else {
        count_idle(s, i - 1)
            + if s[i - 1].kind == crate::units::UnitKind::Drone && s[i - 1].is_idle {
                1int
            } else {
                0int
            }
    }
}

/// Number of constructing workers in the first `i` entries.
pub open spec fn count_constructing(s: Seq<crate::units::OwnUnit>, i: int) -> int
    decreases i,
{
    if i <= 0 { 0 } else {
        count_constructing(s, i - 1)
            + if s[i - 1].kind == crate::units::UnitKind::Drone && s[i - 1].is_constructing {
                1int
            } else {
                0int
            }
    }
}

/// Tallies the worker counters from the unit list, exactly.
pub fn update_worker_stats(my_units: &Vec<crate::units::OwnUnit>) -> (r: WorkerStatus)
    ensures
        r.total == count_total(my_units@, my_units@.len() as int),
        r.gathering == count_gathering(my_units@, my_units@.len() as int),
        r.idle == count_idle(my_units@, my_units@.len() as int),
        r.building == count_constructing(my_units@, my_units@.len() as int),
{
    let n = my_units.len();
    let mut total: usize = 0;
    let mut gathering: usize = 0;
    let mut idle: usize = 0;
    let mut building: usize = 0;
    let mut i: usize = 0;
    while i < n
        invariant
            n == my_units@.len(),
            i <= n,
            total <= i && gathering <= i && idle <= i && building <= i,
            total == count_total(my_units@, i as int),
            gathering == count_gathering(my_units@, i as int),
            idle == count_idle(my_units@, i as int),
            building == count_constructing(my_units@, i as int),
        decreases n - i,
    {
        let u = &my_units[i];
        if matches!(u.kind, crate::units::UnitKind::Drone) {
            total += 1;
            if u.is_gathering {
                gathering += 1;
            }
            if u.is_idle {
                idle += 1;
            }
            if u.is_constructing {
                building += 1;
            }
        }
        i += 1;
    }
    WorkerStatus { total, gathering, idle, building }
}

/// The decimal digit character of `d`.
pub open spec fn digit_char(d: int) -> char {
    if d == 0 { '0' } else if d == 1 { '1' } else if d == 2 { '2' }
    else if d == 3 { '3' } else if d == 4 { '4' } else if d == 5 { '5' }
    else if d == 6 { '6' } else if d == 7 { '7' } else if d == 8 { '8' }
    else { '9' }
}

/// The decimal digits of a nonnegative number, most significant first.
pub open spec fn spec_digits(n: int) -> Seq<char>
    decreases n,
{
    if n < 0 {
        Seq::empty()
    } else if n < 10 {
        seq![digit_char(n)]
    } else {
        spec_digits(n / 10).push(digit_char(n % 10))
    }
}

/// Appends the decimal rendering of `n`, exactly per `spec_digits`.
pub fn append_decimal(s: &mut String, n: u64)
    ensures
        final(s)@ == old(s)@ + spec_digits(n as int),
    decreases n,
{
    if n >= 10 {
        append_decimal(s, n / 10);
    }
    let d = n % 10;
    proof {
        reveal_strlit("0");
        reveal_strlit("1");
        reveal_strlit("2");
        reveal_strlit("3");
        reveal_strlit("4");
        reveal_strlit("5");
        reveal_strlit("6");
        reveal_strlit("7");
        reveal_strlit("8");
        reveal_strlit("9");
    }
    match d {
        0 => s.append("0"),
        1 => s.append("1"),
        2 => s.append("2"),
        3 => s.append("3"),
        4 => s.append("4"),
        5 => s.append("5"),
        6 => s.append("6"),
        7 => s.append("7"),
        8 => s.append("8"),
        _ => s.append("9"),
    }
    proof {
        if n >= 10 {
            assert(spec_digits(n as int)
                =~= spec_digits(n as int / 10).push(digit_char(n as int % 10)));
            assert(final(s)@ =~= old(s)@ + spec_digits(n as int));
        } else {
            assert(spec_digits(n as int) =~= seq![digit_char(n as int)]);
            assert(final(s)@ =~= old(s)@ + spec_digits(n as int));
        }
    }
}

/// Appends the decimal rendering of `v`, a minus sign first when negative.
pub fn append_int(s: &mut String, v: i64)
    ensures
        v >= 0 ==> final(s)@ == old(s)@ + spec_digits(v as int),
        v < 0 ==> final(s)@ == old(s)@ + seq!['-'] + spec_digits(-(v as int)),
{
    proof {
        reveal_strlit("-");
    }
    if v < 0 {
        s.append("-");
        let m: u64 = if v == i64::MIN {
            0x8000_0000_0000_0000
        } else {
            (-v) as u64
        };
        append_decimal(s, m);
        proof {
            assert(final(s)@ =~= old(s)@ + seq!['-'] + spec_digits(-(v as int)));
        }
    } else {
        append_decimal(s, v as u64);
    }
}

/// The image header a populated raster renders: the opening tag with the
/// scaled dimensions and view box, then the dark background rectangle.
pub open spec fn spec_svg_header(w: int, h: int) -> Seq<char> {
    "<svg width=\""@ + spec_digits(w) + "\" height=\""@ + spec_digits(h)
        + "\" viewBox=\"0 0 "@ + spec_digits(w) + " "@ + spec_digits(h)
        + "\" xmlns=\"http://www.w3.org/2000/svg\">"@
        + "<rect width=\""@ + spec_digits(w) + "\" height=\""@ + spec_digits(h)
        + "\" fill=\"#000000\"/>"@
}

/// Renders the map raster as a vector image: a dark background, explored
/// terrain shaded by walkability, resource and unit dots.  An empty raster
/// renders as the empty image; a populated one opens with exactly the header
/// for its scaled dimensions and closes with the end tag.
#[verifier::rlimit(60)]
pub fn generate_map_svg(map_data: &MapData) -> (r: String)
    requires
        map_data.width <= 8192,
        map_data.height <= 8192,
    ensures
        r@.len() >= 11,
        r@.subrange(0, 4) =~= "<svg"@,
        r@.subrange(r@.len() - 6, r@.len() as int) =~= "</svg>"@,
        (map_data.width == 0 || map_data.height == 0) ==> r@ =~= "<svg></svg>"@,
        (map_data.width > 0 && map_data.height > 0) ==> ({
            let hdr = spec_svg_header(
                map_data.width as int * 3, map_data.height as int * 3);
            r@.len() >= hdr.len() && r@.subrange(0, hdr.len() as int) =~= hdr
        }),
{
    proof {
        reveal_strlit("<svg></svg>");
        reveal_strlit("<svg");
        reveal_strlit("</svg>");
        reveal_strlit("<svg width=\"");
    }
    if map_data.width == 0 || map_data.height == 0 {
        let r: String = "<svg></svg>".to_owned();
        proof {
            assert(r@.subrange(0, 4) =~= "<svg"@);
            assert(r@.subrange(r@.len() - 6, r@.len() as int) =~= "</svg>"@);
        }
        return r;
    }

    // three pixels per walk tile
    let scale: u64 = 3;
    let svg_w: u64 = (map_data.width as u64) * scale;
    let svg_h: u64 = (map_data.height as u64) * scale;

    let ghost hdr = spec_svg_header(map_data.width as int * 3, map_data.height as int * 3);
    let mut svg: String = "<svg width=\"".to_owned();
    let ghost head = svg@;
    proof {
        assert(head.subrange(0, 4) =~= "<svg"@);
    }
    append_decimal(&mut svg, svg_w);
    svg.append("\" height=\"");
    append_decimal(&mut svg, svg_h);
    svg.append("\" viewBox=\"0 0 ");
    append_decimal(&mut svg, svg_w);
    svg.append(" ");
    append_decimal(&mut svg, svg_h);
    svg.append("\" xmlns=\"http://www.w3.org/2000/svg\">");

    // background
    svg.append("<rect width=\"");
    append_decimal(&mut svg, svg_w);
    svg.append("\" height=\"");
    append_decimal(&mut svg, svg_h);
    svg.append("\" fill=\"#000000\"/>");
    proof {
        assert(svg@ =~= hdr);
        assert(svg@.subrange(0, 4) =~= "<svg"@);
    }

    // explored terrain, shaded by walkability
    let mut y: usize = 0;
    while y < map_data.height
        invariant
            y <= map_data.height,
            map_data.width <= 8192,
            map_data.height <= 8192,
            hdr == spec_svg_header(map_data.width as int * 3, map_data.height as int * 3),
            svg@.len() >= hdr.len() && svg@.len() >= 12,
            svg@.subrange(0, hdr.len() as int) =~= hdr,
            svg@.subrange(0, 4) =~= "<svg"@,
        decreases map_data.height - y,
    {
        let mut x: usize = 0;
        while x < map_data.width
            invariant
                x <= map_data.width,
                y < map_data.height,
                map_data.width <= 8192,
                map_data.height <= 8192,
                hdr == spec_svg_header(
                    map_data.width as int * 3, map_data.height as int * 3),
                svg@.len() >= hdr.len() && svg@.len() >= 12,
                svg@.subrange(0, hdr.len() as int) =~= hdr,
                svg@.subrange(0, 4) =~= "<svg"@,
            decreases map_data.width - x,
        {
            let explored = if y < map_data.explored.len() {
                let row = &map_data.explored[y];
                if x < row.len() {
                    row[x]
                } else {
                    false
                }
            } else {
                false
            };
            if explored {
                let walkable = if y < map_data.walkability.len() {
                    let row = &map_data.walkability[y];
                    if x < row.len() {
                        row[x]
                    } else {
                        false
                    }
                } else {
                    false
                };
                let ghost pre = svg@;
                svg.append("<rect x=\"");
                append_decimal(&mut svg, (x as u64) * 3);
                svg.append("\" y=\"");
                append_decimal(&mut svg, (y as u64) * 3);
                svg.append("\" width=\"3\" height=\"3\" fill=\"");
                if walkable {
                    svg.append("#2a4a2a");
                } else {
                    svg.append("#4a4a4a");
                }
                svg.append("\"/>");
                proof {
                    assert(svg@.subrange(0, 4) =~= pre.subrange(0, 4));
                    assert(svg@.subrange(0, hdr.len() as int)
                        =~= pre.subrange(0, hdr.len() as int));
                }
            }
            x += 1;
        }
        y += 1;
    }

    // resources
    let mut ri: usize = 0;
    while ri < map_data.resources.len()
        invariant
            ri <= map_data.resources@.len(),
            hdr == spec_svg_header(map_data.width as int * 3, map_data.height as int * 3),
            svg@.len() >= hdr.len() && svg@.len() >= 12,
            svg@.subrange(0, hdr.len() as int) =~= hdr,
            svg@.subrange(0, 4) =~= "<svg"@,
        decreases map_data.resources@.len() - ri,
    {
        let res = &map_data.resources[ri];
        let ghost pre = svg@;
        svg.append("<circle cx=\"");
        append_int(&mut svg, (res.x as i64) / 8 * 3 + 1);
        svg.append("\" cy=\"");
        append_int(&mut svg, (res.y as i64) / 8 * 3 + 1);
        svg.append("\" r=\"6\" fill=\"");
        if res.is_gas {
            svg.append("#00FF00");
        } else {
            svg.append("#00FFFF");
        }
        svg.append("\" opacity=\"0.8\"/>");
        proof {
            assert(svg@.subrange(0, 4) =~= pre.subrange(0, 4));
            assert(svg@.subrange(0, hdr.len() as int)
                =~= pre.subrange(0, hdr.len() as int));
        }
        ri += 1;
    }

    // units
    let mut ui: usize = 0;
    while ui < map_data.units.len()
        invariant
            ui <= map_data.units@.len(),
            hdr == spec_svg_header(map_data.width as int * 3, map_data.height as int * 3),
            svg@.len() >= hdr.len() && svg@.len() >= 12,
            svg@.subrange(0, hdr.len() as int) =~= hdr,
            svg@.subrange(0, 4) =~= "<svg"@,
        decreases map_data.units@.len() - ui,
    {
        let u = &map_data.units[ui];
        let ghost pre = svg@;
        svg.append("<circle cx=\"");
        append_int(&mut svg, (u.x as i64) / 8 * 3);
        svg.append("\" cy=\"");
        append_int(&mut svg, (u.y as i64) / 8 * 3);
        svg.append("\" r=\"3\" fill=\"");
        if u.is_ally {
            svg.append("#0000FF");
        } else {
            svg.append("#FF0000");
        }
        svg.append("\" stroke=\"#FFFFFF\" stroke-width=\"0.5\"/>");
        proof {
            assert(svg@.subrange(0, 4) =~= pre.subrange(0, 4));
            assert(svg@.subrange(0, hdr.len() as int)
                =~= pre.subrange(0, hdr.len() as int));
        }
        ui += 1;
    }

    let ghost before_close = svg@;
    svg.append("</svg>");
    proof {
        assert(svg@.subrange(0, 4) =~= before_close.subrange(0, 4));
        assert(svg@.subrange(0, hdr.len() as int)
            =~= before_close.subrange(0, hdr.len() as int));
        assert(svg@.subrange(svg@.len() - 6, svg@.len() as int) =~= "</svg>"@);
    }
    svg
}

/// Snapshot of the worker ledger for one tick.
pub struct WorkerStatusSnapshot {
    pub worker_assignments: Vec<(usize, WorkerAssignment)>,
    pub frame_count: i32,
}

/// Snapshot of the larva commitments for one tick.
pub struct LarvaeSnapshot {
    pub larva_responsibilities: Vec<(usize, usize)>,
    pub frame_count: i32,
}

/// Snapshot of the build order and its cursor for one tick.
pub struct BuildOrderSnapshot {
    pub build_order: Vec<String>,
    pub build_order_index: usize,
    pub frame_count: i32,
}

/// One unit's observed order for the order table.
pub struct UnitOrder {
    pub unit_id: usize,
    pub unit_type: String,
    pub order_name: String,
    pub target_id: Option<usize>,
    pub current_position: (i32, i32),
    pub target_position: Option<(i32, i32)>,
}

/// Snapshot of every unit's observed order for one tick.
pub struct UnitOrdersSnapshot {
    pub unit_orders: Vec<UnitOrder>,
    pub frame_count: i32,
}

/// One squad member's view for the military table.
pub struct MilitaryUnitInfo {
    pub unit_id: usize,
    pub unit_type: String,
    pub order: String,
    pub order_target_position: Option<(i32, i32)>,
    pub current_position: (i32, i32),
}

/// One squad's view for the military table.
pub struct SquadData {
    pub name: String,
    pub units: Vec<MilitaryUnitInfo>,
    pub target_position: Option<(i32, i32)>,
    pub target_path: Option<Vec<(i32, i32)>>,
    pub target_path_index: Option<usize>,
}

/// Snapshot of the squads for one tick.
pub struct MilitaryAssignmentsSnapshot {
    pub squads: Vec<SquadData>,
    pub frame_count: i32,
}

/// Snapshot of the map raster for one tick.
pub struct MapSnapshot {
    pub map_data: MapData,
    pub frame_count: i32,
}

/// Snapshot of the simulation speed for one tick.
#[derive(Clone, Copy, Debug, PartialEq, Eq, Structural)]
pub struct GameSpeedSnapshot {
    pub game_speed: i32,
    pub frame_count: i32,
}

/// An operator command from the side-channel.
pub struct GameSpeedCommand {
    pub command: String,
    pub value: i32,
}

/// Snapshot of the overlay set for one tick.
pub struct DebugFlagsSnapshot {
    pub debug_flags: Vec<DebugFlag>,
    pub frame_count: i32,
}

/// A whole-set overlay replacement from the side-channel.
pub struct UpdateDebugFlagsRequest {
    pub debug_flags: Vec<DebugFlag>,
}

/// Builds the speed snapshot for the tick.
pub fn game_speed_snapshot(state: &GameState, frame_count: i32) -> (r: GameSpeedSnapshot)
    ensures
        r.game_speed == state.game_speed,
        r.frame_count == frame_count,
{
    GameSpeedSnapshot { game_speed: state.game_speed, frame_count }
}

/// Builds the larva-commitment snapshot for the tick.
pub fn larvae_snapshot(state: &GameState, frame_count: i32) -> (r: LarvaeSnapshot)
    ensures
        r.larva_responsibilities@ == state.larva_responsibilities.entries@,
        r.frame_count == frame_count,
{
    let mut entries: Vec<(usize, usize)> = Vec::new();
    let n = state.larva_responsibilities.entries.len();
    let mut i: usize = 0;
    while i < n
        invariant
            n == state.larva_responsibilities.entries@.len(),
            i <= n,
            entries@ == state.larva_responsibilities.entries@.subrange(0, i as int),
        decreases n - i,
    {
        entries.push(state.larva_responsibilities.entries[i]);
        i += 1;
        proof {
            assert(entries@
                =~= state.larva_responsibilities.entries@.subrange(0, i as int));
        }
    }
    proof {
        assert(entries@ =~= state.larva_responsibilities.entries@);
    }
    LarvaeSnapshot { larva_responsibilities: entries, frame_count }
}

/// Builds the worker-ledger snapshot for the tick.
pub fn worker_status_snapshot(state: &GameState, frame_count: i32)
    -> (r: WorkerStatusSnapshot)
    ensures
        r.worker_assignments@ == state.worker_assignments.entries@,
        r.frame_count == frame_count,
{
    let mut entries: Vec<(usize, WorkerAssignment)> = Vec::new();
    let n = state.worker_assignments.entries.len();
    let mut i: usize = 0;
    while i < n
        invariant
            n == state.worker_assignments.entries@.len(),
            i <= n,
            entries@ == state.worker_assignments.entries@.subrange(0, i as int),
        decreases n - i,
    {
        entries.push(state.worker_assignments.entries[i]);
        i += 1;
        proof {
            assert(entries@ =~= state.worker_assignments.entries@.subrange(0, i as int));
        }
    }
    proof {
        assert(entries@ =~= state.worker_assignments.entries@);
    }
    WorkerStatusSnapshot { worker_assignments: entries, frame_count }
}

/// Builds the overlay snapshot for the tick.
pub fn debug_flags_snapshot(state: &GameState, frame_count: i32)
    -> (r: DebugFlagsSnapshot)
    ensures
        r.debug_flags@ == state.debug_flags@,
        r.frame_count == frame_count,
{
    let mut flags: Vec<DebugFlag> = Vec::new();
    let n = state.debug_flags.len();
    let mut i: usize = 0;
    while i < n
        invariant
            n == state.debug_flags@.len(),
            i <= n,
            flags@ == state.debug_flags@.subrange(0, i as int),
        decreases n - i,
    {
        flags.push(state.debug_flags[i]);
        i += 1;
        proof {
            assert(flags@ =~= state.debug_flags@.subrange(0, i as int));
        }
    }
    proof {
        assert(flags@ =~= state.debug_flags@);
    }
    DebugFlagsSnapshot { debug_flags: flags, frame_count }
}

} // verus!
