use vstd::prelude::*;

use crate::filter::{lower_of, matches_filter, str_eq, to_lowercase, visible_spec};
use crate::geometry::{
    box_contains, clamp_screen, clamp_screen_spec, clamp_spec, move_coord,
    moved_spec, pan_ok, screen_point_ok, screen_to_diagram, to_diagram_axis, zoom_ok, Point,
    Vector, MAX_ZOOM, MIN_ZOOM, SCREEN_LIMIT, ZOOM_SCALE,
};
use crate::model::{tables_view, Table, TablePoint, TableView};
use crate::render::{copy_frame, frame_view, render, scene, selected_view, Primitive};

verus! {

/// A pointer event on the canvas, at a screen position.
#[derive(Clone, Copy, Debug)]
pub enum PointerEvent {
    RightPressed(Point),
    Moved(Point),
    Other,
}

/// What the canvas did with an event.
#[derive(Clone, Copy, Debug, PartialEq, Eq, Structural)]
pub enum Response {
    Ignored,
    Captured,
    /// A table was hit: show its context menu at this screen position.
    ShowContextMenu(Point),
}

/// The index of the first of the first `n` tables that satisfies `pred`.
pub open spec fn first_in(ts: Seq<TableView>, n: int, pred: spec_fn(TableView) -> bool) -> Option<
    int,
>
    decreases n,
{
    if n <= 0 {
        None
    } else {
        match first_in(ts, n - 1, pred) {
            Some(i) => Some(i),
            None => if pred(ts[n - 1]) {
                Some(n - 1)
            } else {
                None
            },
        }
    }
}

/// The position of a table, as a point.
pub open spec fn position_of(t: TableView) -> Point {
    t.position
}

/// Whether a diagram point hits a table: only visible tables take part.
pub open spec fn is_hit(t: TableView, p: Point) -> bool {
    t.visible && box_contains(position_of(t), p)
}

pub open spec fn hit_pred(p: Point) -> spec_fn(TableView) -> bool {
    |t: TableView| is_hit(t, p)
}

pub open spec fn name_pred(name: Seq<char>) -> spec_fn(TableView) -> bool {
    |t: TableView| t.name == name
}

/// The table that a diagram point hits: the first in sequence order.
pub open spec fn hit_index(ts: Seq<TableView>, p: Point) -> Option<int> {
    first_in(ts, ts.len() as int, hit_pred(p))
}

/// The first table with the given name.
pub open spec fn named_index(ts: Seq<TableView>, name: Seq<char>) -> Option<int> {
    first_in(ts, ts.len() as int, name_pred(name))
}

/// The abstract state of a diagram.
pub struct DiagramView {
    pub tables: Seq<TableView>,
    pub simplified: bool,
    /// The zoom factor, in thousandths.
    pub zoom: int,
    pub pan: Vector,
    pub selected: Option<Seq<char>>,
    pub last_position: Option<Point>,
    /// Whether the rendered frame is cached.
    pub cached: bool,
}

/// The interactive canvas: the tables, the view transform, the selection and the
/// render cache.
pub struct Diagram {
    cache: Option<Vec<Primitive>>,
    tables: Vec<Table>,
    simplified: bool,
    zoom: i64,
    pan: Vector,
    selected_table: Option<String>,
    last_position: Option<Point>,
}

impl View for Diagram {
    type V = DiagramView;

    closed spec fn view(&self) -> DiagramView {
        DiagramView {
            tables: tables_view(self.tables@),
            simplified: self.simplified,
            zoom: self.zoom as int,
            pan: self.pan,
            selected: selected_view(self.selected_table),
            last_position: self.last_position,
            cached: self.cache is Some,
        }
    }
}

/// The tables after `name` was deleted: every table of that name goes, the rest
/// keep their order.
pub open spec fn without_named(ts: Seq<TableView>, name: Seq<char>) -> Seq<TableView> {
    ts.filter(keep_pred(name))
}

pub open spec fn keep_pred(name: Seq<char>) -> spec_fn(TableView) -> bool {
    |t: TableView| t.name != name
}

/// The tables after a drag: the table at `i` moved by `delta` and snapped.
pub open spec fn dragged(ts: Seq<TableView>, i: int, delta: Point) -> Seq<TableView> {
    ts.update(
        i,
        TableView {
            position: Point {
                x: moved_spec(ts[i].position.x as int, delta.x as int) as i64,
                y: moved_spec(ts[i].position.y as int, delta.y as int) as i64,
            },
            ..ts[i]
        },
    )
}

/// The tables after the filter: each visible exactly when it is in the current
/// schema and its case-folded name holds the case-folded query.
pub open spec fn filtered(ts: Seq<TableView>, current_schema: Seq<char>, query: Seq<char>) -> Seq<
    TableView,
> {
    ts.map_values(
        |t: TableView|
            TableView {
                visible: visible_spec(t.schema, lower_of(t.name), current_schema, lower_of(query)),
                ..t
            },
    )
}

/// What a pointer event does to the state, and what the canvas answers.
pub open spec fn step(v: DiagramView, event: PointerEvent) -> (DiagramView, Response) {
    match event {
        PointerEvent::RightPressed(raw) => {
            let p = clamp_screen_spec(raw);
            let at = Point {
                x: to_diagram_axis(p.x as int, v.pan.x as int, v.zoom) as i64,
                y: to_diagram_axis(p.y as int, v.pan.y as int, v.zoom) as i64,
            };
            match hit_index(v.tables, at) {
                Some(i) => (
                    DiagramView { selected: Some(v.tables[i].name), cached: false, ..v },
                    Response::ShowContextMenu(p),
                ),
                None => (
                    DiagramView { selected: None, last_position: Some(p), cached: false, ..v },
                    Response::Captured,
                ),
            }
        },
        PointerEvent::Moved(raw) => {
            let p = clamp_screen_spec(raw);
            match v.selected {
                Some(name) => match named_index(v.tables, name) {
                    Some(i) => {
                        let last = match v.last_position {
                            Some(l) => l,
                            None => p,
                        };
                        let delta = Point {
                            x: to_diagram_axis(p.x as int, last.x as int, v.zoom) as i64,
                            y: to_diagram_axis(p.y as int, last.y as int, v.zoom) as i64,
                        };
                        (
                            DiagramView {
                                tables: dragged(v.tables, i, delta),
                                last_position: Some(p),
                                cached: false,
                                ..v
                            },
                            Response::Captured,
                        )
                    },
                    None => (v, Response::Ignored),
                },
                None => (v, Response::Ignored),
            }
        },
        PointerEvent::Other => (v, Response::Ignored),
    }
}

/// The earliest table that satisfies `pred` is what `first_in` finds: no table
/// before it does, and any table that does stands at or after it.
pub proof fn lemma_first_in(ts: Seq<TableView>, n: int, pred: spec_fn(TableView) -> bool)
    ensures
        match first_in(ts, n, pred) {
            Some(k) => 0 <= k < n && pred(ts[k]) && forall|j: int| 0 <= j < k ==> !pred(ts[j]),
            None => forall|j: int| 0 <= j < n ==> !pred(ts[j]),
        },
    decreases n,
{
    if n > 0 {
        lemma_first_in(ts, n - 1, pred);
    }
}

/// When two visible tables both hold a point, the hit test answers the one that
/// comes first in the sequence, whatever their boxes, and it answers the same on
/// every call: it depends on the tables and the point alone.
pub proof fn lemma_hit_prefers_earlier(ts: Seq<TableView>, p: Point, i: int, j: int)
    requires
        0 <= i < j < ts.len(),
        is_hit(ts[i], p),
        is_hit(ts[j], p),
    ensures
        hit_index(ts, p) is Some,
        hit_index(ts, p)->0 <= i,
        hit_index(ts, p) != Some(j),
{
    lemma_first_in(ts, ts.len() as int, hit_pred(p));
}

/// One more table searched: the first match, if there was none before, is that
/// table when it satisfies `pred`.
pub proof fn lemma_first_in_step(ts: Seq<TableView>, n: int, pred: spec_fn(TableView) -> bool)
    requires
        0 <= n,
        first_in(ts, n, pred) is None,
    ensures
        first_in(ts, n + 1, pred) == if pred(ts[n]) {
            Some(n)
        } else {
            None
        },
{
}

/// Once found among the first `n` tables, the first match stays the first match
/// among more tables.
pub proof fn lemma_first_in_stable(
    ts: Seq<TableView>,
    n: int,
    m: int,
    pred: spec_fn(TableView) -> bool,
)
    requires
        first_in(ts, n, pred) is Some,
        n <= m,
    ensures
        first_in(ts, m, pred) == first_in(ts, n, pred),
    decreases m - n,
{
    if m > n {
        lemma_first_in_stable(ts, n, m - 1, pred);
    }
}

impl Diagram {
    /// The diagram's own invariant: the transform is usable, and a cached frame
    /// is the frame of the current state.
    pub closed spec fn wf(&self) -> bool {
        &&& zoom_ok(self.zoom as int)
        &&& pan_ok(self.pan)
        &&& (self.last_position matches Some(p) ==> screen_point_ok(p))
        &&& (self.cache matches Some(f) ==> frame_view(f@) == scene(self@))
    }

    /// A diagram of these tables at zoom one, without pan or selection, drawn with
    /// names only.
    pub fn new(tables: Vec<Table>) -> (r: Diagram)
        ensures
            r.wf(),
            r@ == (DiagramView {
                tables: tables_view(tables@),
                simplified: true,
                zoom: ZOOM_SCALE as int,
                pan: Vector { x: 0, y: 0 },
                selected: None,
                last_position: None,
                cached: false,
            }),
    {
        Diagram {
            cache: None,
            tables,
            simplified: true,
            zoom: ZOOM_SCALE,
            pan: Vector { x: 0, y: 0 },
            selected_table: None,
            last_position: None,
        }
    }

    pub fn selected_table(&self) -> (r: Option<&String>)
        ensures
            match r {
                Some(s) => self@.selected == Some(s@),
                None => self@.selected is None,
            },
    {
        self.selected_table.as_ref()
    }

    pub fn tables(&self) -> (r: &Vec<Table>)
        ensures
            tables_view(r@) == self@.tables,
    {
        &self.tables
    }

    /// The tables, for changes in place; the cached frame is dropped first.
    pub fn tables_mut(&mut self) -> (r: &mut Vec<Table>)
        requires
            old(self).wf(),
        ensures
            tables_view(r@) == old(self)@.tables,
            final(self).wf(),
            final(self)@ == (DiagramView { tables: tables_view(final(r)@), cached: false, ..old(self)@ }),
    {
        self.cache = None;
        &mut self.tables
    }

    pub fn set_tables(&mut self, tables: Vec<Table>)
        requires
            old(self).wf(),
        ensures
            final(self).wf(),
            final(self)@ == (DiagramView { tables: tables_view(tables@), cached: false, ..old(self)@ }),
    {
        self.tables = tables;
        self.cache = None;
    }

    /// Drops the cached frame: the next draw renders anew.
    pub fn clear_cache(&mut self)
        requires
            old(self).wf(),
        ensures
            final(self).wf(),
            final(self)@ == (DiagramView { cached: false, ..old(self)@ }),
    {
        self.cache = None;
    }

    /// The zoom factor, in thousandths.
    pub fn zoom(&self) -> (r: i64)
        ensures
            r == self@.zoom,
    {
        self.zoom
    }

    pub fn pan(&self) -> (r: Vector)
        ensures
            r == self@.pan,
    {
        self.pan
    }

    pub fn simplified(&self) -> (r: bool)
        ensures
            r == self@.simplified,
    {
        self.simplified
    }

    /// Whether the next draw renders anew.
    pub fn needs_redraw(&self) -> (r: bool)
        ensures
            r == !self@.cached,
    {
        self.cache.is_none()
    }

    /// Sets the zoom factor (in thousandths), clamped to the allowed range; a zoom
    /// that is not positive becomes the smallest.
    pub fn set_zoom(&mut self, zoom: i64)
        requires
            old(self).wf(),
        ensures
            final(self).wf(),
            final(self)@ == (DiagramView {
                zoom: if zoom < MIN_ZOOM {
                    MIN_ZOOM as int
                } else if zoom > MAX_ZOOM {
                    MAX_ZOOM as int
                } else {
                    zoom as int
                },
                cached: false,
                ..old(self)@
            }),
    {
        self.zoom = if zoom < MIN_ZOOM {
            MIN_ZOOM
        } else if zoom > MAX_ZOOM {
            MAX_ZOOM
        } else {
            zoom
        };
        self.cache = None;
    }

    /// Sets the pan offset, each axis clamped to the range of screen coordinates.
    pub fn set_pan(&mut self, pan: Vector)
        requires
            old(self).wf(),
        ensures
            final(self).wf(),
            final(self)@ == (DiagramView {
                pan: Vector {
                    x: clamp_spec(pan.x as int, SCREEN_LIMIT as int) as i64,
                    y: clamp_spec(pan.y as int, SCREEN_LIMIT as int) as i64,
                },
                cached: false,
                ..old(self)@
            }),
    {
        let p = clamp_screen(Point { x: pan.x, y: pan.y });
        self.pan = Vector { x: p.x, y: p.y };
        self.cache = None;
    }

    /// Chooses between labels of names only and labels with column counts.
    pub fn set_simplified(&mut self, simplified: bool)
        requires
            old(self).wf(),
        ensures
            final(self).wf(),
            final(self)@ == (DiagramView { simplified, cached: false, ..old(self)@ }),
    {
        self.simplified = simplified;
        self.cache = None;
    }

    /// The first visible table whose box holds the diagram point `p`.
    pub fn find_table_at(&self, p: Point) -> (r: Option<usize>)
        ensures
            match r {
                Some(i) => hit_index(self@.tables, p) == Some(i as int) && i < self@.tables.len(),
                None => hit_index(self@.tables, p) is None,
            },
    {
        let ghost pred = hit_pred(p);
        let mut i: usize = 0;
        while i < self.tables.len()
            invariant
                i <= self.tables.len(),
                pred == hit_pred(p),
                first_in(self@.tables, i as int, pred) is None,
            decreases self.tables.len() - i,
        {
            let t = &self.tables[i];
            assert(self@.tables[i as int] == t@);
            proof {
                lemma_first_in_step(self@.tables, i as int, pred);
            }
            if t.visible && crate::geometry::contains(t.position.0, p) {
                proof {
                    lemma_first_in_stable(self@.tables, i + 1, self@.tables.len() as int, pred);
                }
                return Some(i);
            }
            i += 1;
        }
        None
    }

    /// The first table with the given name.
    fn find_named(&self, name: &str) -> (r: Option<usize>)
        ensures
            match r {
                Some(i) => named_index(self@.tables, name@) == Some(i as int) && i < self@.tables.len(),
                None => named_index(self@.tables, name@) is None,
            },
    {
        let ghost pred = name_pred(name@);
        let mut i: usize = 0;
        while i < self.tables.len()
            invariant
                i <= self.tables.len(),
                pred == name_pred(name@),
                first_in(self@.tables, i as int, pred) is None,
            decreases self.tables.len() - i,
        {
            let t = &self.tables[i];
            assert(self@.tables[i as int] == t@);
            proof {
                lemma_first_in_step(self@.tables, i as int, pred);
            }
            if str_eq(t.name.as_str(), name) {
                proof {
                    lemma_first_in_stable(self@.tables, i + 1, self@.tables.len() as int, pred);
                }
                return Some(i);
            }
            i += 1;
        }
        None
    }

    /// Handles one pointer event: a right press selects the table under the
    /// pointer (or clears the selection and records the pointer); a move drags the
    /// selected table by the pointer's motion in diagram space, snapped to the grid.
    pub fn update(&mut self, event: PointerEvent) -> (r: Response)
        requires
            old(self).wf(),
        ensures
            final(self).wf(),
            (final(self)@, r) == step(old(self)@, event),
    {
        match event {
            PointerEvent::RightPressed(raw) => {
                let p = clamp_screen(raw);
                let at = screen_to_diagram(p, self.pan, self.zoom);
                match self.find_table_at(at) {
                    Some(i) => {
                        self.selected_table = Some(self.tables[i].name.clone());
                        self.cache = None;
                        Response::ShowContextMenu(p)
                    },
                    None => {
                        self.selected_table = None;
                        self.last_position = Some(p);
                        self.cache = None;
                        Response::Captured
                    },
                }
            },
            PointerEvent::Moved(raw) => {
                let p = clamp_screen(raw);
                let found = match &self.selected_table {
                    Some(name) => self.find_named(name.as_str()),
                    None => None,
                };
                match found {
                    Some(i) => {
                        let last = match self.last_position {
                            Some(l) => l,
                            None => p,
                        };
                        let delta = screen_to_diagram(p, Vector { x: last.x, y: last.y }, self.zoom);
                        let ghost before = self.tables@;
                        let mut t = self.tables.remove(i);
                        t.position = TablePoint(
                            Point {
                                x: move_coord(t.position.0.x, delta.x),
                                y: move_coord(t.position.0.y, delta.y),
                            },
                        );
                        self.tables.insert(i, t);
                        self.cache = None;
                        self.last_position = Some(p);
                        proof {
                            assert(self.tables@ =~= before.update(i as int, t));
                            assert(tables_view(self.tables@) =~= dragged(
                                tables_view(old(self).tables@),
                                i as int,
                                delta,
                            ));
                        }
                        Response::Captured
                    },
                    None => Response::Ignored,
                }
            },
            PointerEvent::Other => Response::Ignored,
        }
    }

    /// The frame of the current state, in diagram coordinates. It is rendered anew
    /// only when the cache was dropped since the last draw; a cached frame is
    /// always the frame of the current state.
    pub fn draw(&mut self) -> (r: Vec<Primitive>)
        requires
            old(self).wf(),
        ensures
            final(self).wf(),
            frame_view(r@) == scene(old(self)@),
            final(self)@ == (DiagramView { cached: true, ..old(self)@ }),
    {
        if self.cache.is_none() {
            let frame = render(&self.tables, &self.selected_table, self.simplified);
            self.cache = Some(frame);
        }
        match &self.cache {
            Some(f) => copy_frame(f),
            None => Vec::new(),
        }
    }

    /// Deletes every table of the given name; the others keep their order.
    pub fn delete_table(&mut self, name: &str)
        requires
            old(self).wf(),
        ensures
            final(self).wf(),
            final(self)@ == (DiagramView {
                tables: without_named(old(self)@.tables, name@),
                cached: false,
                ..old(self)@
            }),
    {
        let ghost pred = keep_pred(name@);
        let old_tables = &self.tables;
        let mut kept: Vec<Table> = Vec::new();
        let mut i: usize = 0;
        while i < old_tables.len()
            invariant
                i <= old_tables.len(),
                tables_view(old_tables@) == old(self)@.tables,
                pred == keep_pred(name@),
                tables_view(kept@) == tables_view(old_tables@).take(i as int).filter(pred),
            decreases old_tables.len() - i,
        {
            proof {
                let sofar = tables_view(old_tables@).take(i as int);
                assert(tables_view(old_tables@).take(i + 1) =~= sofar.push(old_tables@[i as int]@));
                sofar.lemma_filter_push(old_tables@[i as int]@, pred);
            }
            if !str_eq(old_tables[i].name.as_str(), name) {
                kept.push(old_tables[i].clone());
                assert(tables_view(kept@) =~= tables_view(old_tables@).take(i + 1).filter(pred));
            } else {
                assert(tables_view(kept@) =~= tables_view(old_tables@).take(i + 1).filter(pred));
            }
            i += 1;
        }
        assert(tables_view(old_tables@).take(i as int) =~= tables_view(old_tables@));
        self.tables = kept;
        self.cache = None;
    }

    /// Recomputes every table's visibility: visible exactly when the table is in
    /// `current_schema` and the query is empty or occurs in its name, both
    /// case-folded.
    pub fn apply_filter(&mut self, current_schema: &str, query: &str)
        requires
            old(self).wf(),
        ensures
            final(self).wf(),
            final(self)@ == (DiagramView {
                tables: filtered(old(self)@.tables, current_schema@, query@),
                cached: false,
                ..old(self)@
            }),
    {
        let folded_query = to_lowercase(query);
        self.cache = None;
        let n = self.tables.len();
        let mut i: usize = 0;
        while i < n
            invariant
                i <= n,
                n == self.tables.len(),
                folded_query@ == lower_of(query@),
                old(self)@.tables.len() == n,
                self.cache is None,
                self.zoom == old(self).zoom,
                self.pan == old(self).pan,
                self.simplified == old(self).simplified,
                self.selected_table == old(self).selected_table,
                self.last_position == old(self).last_position,
                forall|j: int|
                    0 <= j < i ==> #[trigger] self@.tables[j] == filtered(
                        old(self)@.tables,
                        current_schema@,
                        query@,
                    )[j],
                forall|j: int| i <= j < n ==> #[trigger] self@.tables[j] == old(self)@.tables[j],
            decreases n - i,
        {
            let ghost before = self.tables@;
            let ghost prior = self@.tables;
            assert(self@.tables[i as int] == old(self)@.tables[i as int]);
            let mut t = self.tables.remove(i);
            let folded_name = to_lowercase(t.name.as_str());
            t.visible = matches_filter(
                t.schema.as_str(),
                folded_name.as_str(),
                current_schema,
                folded_query.as_str(),
            );
            proof {
                let o = old(self)@.tables[i as int];
                assert(t@ == TableView { visible: t.visible, ..o });
                assert(filtered(old(self)@.tables, current_schema@, query@)[i as int] == TableView {
                    visible: visible_spec(o.schema, lower_of(o.name), current_schema@, lower_of(query@)),
                    ..o
                });
            }
            self.tables.insert(i, t);
            assert(self.tables@ =~= before.update(i as int, t));
            assert(self@.tables =~= prior.update(
                i as int,
                filtered(old(self)@.tables, current_schema@, query@)[i as int],
            ));
            i += 1;
        }
        assert(self@.tables =~= filtered(old(self)@.tables, current_schema@, query@));
    }
}

} // verus!
