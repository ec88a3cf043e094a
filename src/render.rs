use vstd::prelude::*;

use crate::diagram::{
    first_in, lemma_first_in_stable, lemma_first_in_step, position_of, DiagramView,
};
use crate::filter::str_eq;
use crate::geometry::{offset, offset_spec, Point, BOX_HEIGHT, BOX_WIDTH};
use crate::model::{tables_view, Table, TableView};
use crate::text::{nat_text, push_nat};

verus! {

/// One element of a rendered frame, in diagram coordinates.
pub enum Primitive {
    /// A table's box, with its top-left corner; highlighted when selected.
    Rect { origin: Point, highlighted: bool },
    /// A table's label, with the point where the text starts.
    Label { at: Point, text: String },
    /// A relationship line between two tables.
    Edge { from: Point, to: Point },
}

pub enum PrimitiveView {
    Rect { origin: Point, highlighted: bool },
    Label { at: Point, text: Seq<char> },
    Edge { from: Point, to: Point },
}

impl View for Primitive {
    type V = PrimitiveView;

    open spec fn view(&self) -> PrimitiveView {
        match self {
            Primitive::Rect { origin, highlighted } => PrimitiveView::Rect {
                origin: *origin,
                highlighted: *highlighted,
            },
            Primitive::Label { at, text } => PrimitiveView::Label { at: *at, text: text@ },
            Primitive::Edge { from, to } => PrimitiveView::Edge { from: *from, to: *to },
        }
    }
}

impl Clone for Primitive {
    fn clone(&self) -> (r: Self)
        ensures
            r@ == self@,
    {
        match self {
            Primitive::Rect { origin, highlighted } => Primitive::Rect {
                origin: *origin,
                highlighted: *highlighted,
            },
            Primitive::Label { at, text } => Primitive::Label { at: *at, text: text.clone() },
            Primitive::Edge { from, to } => Primitive::Edge { from: *from, to: *to },
        }
    }
}

/// The selected table's name, if any.
pub open spec fn selected_view(selected: Option<String>) -> Option<Seq<char>> {
    match selected {
        Some(s) => Some(s@),
        None => None,
    }
}

/// The views of a frame's primitives.
pub open spec fn frame_view(f: Seq<Primitive>) -> Seq<PrimitiveView> {
    f.map_values(|p: Primitive| p@)
}

/// The first visible table with the given name: the target of a relationship line.
pub open spec fn visible_named(ts: Seq<TableView>, name: Seq<char>) -> Option<int> {
    first_in(ts, ts.len() as int, target_pred(name))
}

pub open spec fn target_pred(name: Seq<char>) -> spec_fn(TableView) -> bool {
    |t: TableView| t.visible && t.name == name
}

/// A table's label: its name alone, or its name and its column count.
pub open spec fn label_text(t: TableView, simplified: bool) -> Seq<char> {
    if simplified {
        t.name
    } else {
        t.name + " ("@ + nat_text(t.columns.len()) + ")"@
    }
}

/// The middle of a box's right edge, where its relationship lines start.
pub open spec fn right_middle(t: TableView) -> Point {
    Point {
        x: offset_spec(t.position.x as int, BOX_WIDTH as int) as i64,
        y: offset_spec(t.position.y as int, BOX_HEIGHT / 2) as i64,
    }
}

/// The middle of a box's left edge, where relationship lines end.
pub open spec fn left_middle(t: TableView) -> Point {
    Point { x: t.position.x, y: offset_spec(t.position.y as int, BOX_HEIGHT / 2) as i64 }
}

/// Where a table's label starts.
pub open spec fn label_point(t: TableView) -> Point {
    Point { x: offset_spec(t.position.x as int, 5) as i64, y: offset_spec(t.position.y as int, 15) as i64 }
}

/// The lines of the first `m` foreign keys of `t`: one to each target that is a
/// visible table; a missing or hidden target draws nothing.
pub open spec fn edges_upto(ts: Seq<TableView>, t: TableView, m: int) -> Seq<PrimitiveView>
    decreases m,
{
    if m <= 0 {
        Seq::empty()
    } else {
        edges_upto(ts, t, m - 1) + match visible_named(ts, t.foreign_keys[m - 1].referenced_table) {
            Some(j) => seq![PrimitiveView::Edge { from: right_middle(t), to: left_middle(ts[j]) }],
            None => Seq::empty(),
        }
    }
}

/// What one visible table draws: its box, its label and its lines.
pub open spec fn table_frame(
    ts: Seq<TableView>,
    selected: Option<Seq<char>>,
    simplified: bool,
    t: TableView,
) -> Seq<PrimitiveView> {
    seq![
        PrimitiveView::Rect { origin: position_of(t), highlighted: selected == Some(t.name) },
        PrimitiveView::Label { at: label_point(t), text: label_text(t, simplified) },
    ] + edges_upto(ts, t, t.foreign_keys.len() as int)
}

/// What the first `n` tables draw; hidden tables draw nothing.
pub open spec fn frame_upto(
    ts: Seq<TableView>,
    selected: Option<Seq<char>>,
    simplified: bool,
    n: int,
) -> Seq<PrimitiveView>
    decreases n,
{
    if n <= 0 {
        Seq::empty()
    } else {
        frame_upto(ts, selected, simplified, n - 1) + if ts[n - 1].visible {
            table_frame(ts, selected, simplified, ts[n - 1])
        } else {
            Seq::empty()
        }
    }
}

/// The frame of a diagram state.
pub open spec fn scene(v: DiagramView) -> Seq<PrimitiveView> {
    frame_upto(v.tables, v.selected, v.simplified, v.tables.len() as int)
}

/// A copy of a frame.
pub fn copy_frame(f: &Vec<Primitive>) -> (r: Vec<Primitive>)
    ensures
        frame_view(r@) == frame_view(f@),
{
    let mut r: Vec<Primitive> = Vec::new();
    let mut i: usize = 0;
    while i < f.len()
        invariant
            i <= f.len(),
            r@.len() == i,
            forall|j: int| 0 <= j < i ==> #[trigger] r@[j]@ == f@[j]@,
        decreases f.len() - i,
    {
        r.push(f[i].clone());
        i += 1;
    }
    assert(frame_view(r@) =~= frame_view(f@));
    r
}

fn find_visible_named(tables: &Vec<Table>, name: &str) -> (r: Option<usize>)
    ensures
        match r {
            Some(i) => visible_named(tables_view(tables@), name@) == Some(i as int) && i
                < tables@.len(),
            None => visible_named(tables_view(tables@), name@) is None,
        },
{
    let ghost ts = tables_view(tables@);
    let ghost pred = target_pred(name@);
    let mut i: usize = 0;
    while i < tables.len()
        invariant
            i <= tables.len(),
            ts == tables_view(tables@),
            pred == target_pred(name@),
            first_in(ts, i as int, pred) is None,
        decreases tables.len() - i,
    {
        let t = &tables[i];
        assert(ts[i as int] == t@);
        proof {
            lemma_first_in_step(ts, i as int, pred);
        }
        if t.visible && str_eq(t.name.as_str(), name) {
            proof {
                lemma_first_in_stable(ts, i + 1, ts.len() as int, pred);
            }
            return Some(i);
        }
        i += 1;
    }
    None
}

fn label(t: &Table, simplified: bool) -> (r: String)
    ensures
        r@ == label_text(t@, simplified),
{
    let mut s = t.name.clone();
    if !simplified {
        s.append(" (");
        push_nat(&mut s, t.columns.len() as u64);
        s.append(")");
    }
    s
}

fn push_table(
    out: &mut Vec<Primitive>,
    tables: &Vec<Table>,
    selected: &Option<String>,
    simplified: bool,
    t: &Table,
)
    ensures
        frame_view(final(out)@) == frame_view(old(out)@) + table_frame(
            tables_view(tables@),
            selected_view(*selected),
            simplified,
            t@,
        ),
{
    let ghost ts = tables_view(tables@);
    let ghost sel = selected_view(*selected);
    let highlighted = match selected {
        Some(s) => str_eq(s.as_str(), t.name.as_str()),
        None => false,
    };
    let pos = t.position.0;
    out.push(Primitive::Rect { origin: pos, highlighted });
    out.push(
        Primitive::Label {
            at: Point { x: offset(pos.x, 5), y: offset(pos.y, 15) },
            text: label(t, simplified),
        },
    );
    let ghost head = frame_view(old(out)@) + seq![
        PrimitiveView::Rect { origin: position_of(t@), highlighted: sel == Some(t@.name) },
        PrimitiveView::Label { at: label_point(t@), text: label_text(t@, simplified) },
    ];
    assert(frame_view(out@) =~= head);
    let from = Point { x: offset(pos.x, BOX_WIDTH), y: offset(pos.y, BOX_HEIGHT / 2) };
    let mut k: usize = 0;
    while k < t.foreign_keys.len()
        invariant
            k <= t.foreign_keys.len(),
            ts == tables_view(tables@),
            from == right_middle(t@),
            head == frame_view(old(out)@) + seq![
                PrimitiveView::Rect { origin: position_of(t@), highlighted: sel == Some(t@.name) },
                PrimitiveView::Label { at: label_point(t@), text: label_text(t@, simplified) },
            ],
            frame_view(out@) == head + edges_upto(ts, t@, k as int),
        decreases t.foreign_keys.len() - k,
    {
        let fk = &t.foreign_keys[k];
        assert(t@.foreign_keys[k as int] == fk@);
        let ghost prev = out@;
        match find_visible_named(tables, fk.referenced_table.as_str()) {
            Some(j) => {
                let target = &tables[j];
                assert(ts[j as int] == target@);
                assert(edges_upto(ts, t@, k + 1) == edges_upto(ts, t@, k as int) + seq![
                    PrimitiveView::Edge { from: right_middle(t@), to: left_middle(ts[j as int]) },
                ]);
                out.push(
                    Primitive::Edge {
                        from,
                        to: Point {
                            x: target.position.0.x,
                            y: offset(target.position.0.y, BOX_HEIGHT / 2),
                        },
                    },
                );
                assert(out@.last()@ == PrimitiveView::Edge {
                    from: right_middle(t@),
                    to: left_middle(ts[j as int]),
                });
                assert(frame_view(out@) =~= frame_view(prev).push(out@.last()@));
            },
            None => {
                assert(edges_upto(ts, t@, k + 1) =~= edges_upto(ts, t@, k as int));
            },
        }
        k += 1;
        assert(frame_view(out@) =~= head + edges_upto(ts, t@, k as int));
    }
    assert(head + edges_upto(ts, t@, t@.foreign_keys.len() as int) =~= frame_view(old(out)@)
        + table_frame(ts, sel, simplified, t@));
}

/// Renders the frame of the given tables, selection and label mode.
pub fn render(tables: &Vec<Table>, selected: &Option<String>, simplified: bool) -> (r: Vec<
    Primitive,
>)
    ensures
        frame_view(r@) == frame_upto(
            tables_view(tables@),
            selected_view(*selected),
            simplified,
            tables@.len() as int,
        ),
{
    let ghost ts = tables_view(tables@);
    let ghost sel = selected_view(*selected);
    let mut out: Vec<Primitive> = Vec::new();
    let mut i: usize = 0;
    while i < tables.len()
        invariant
            i <= tables.len(),
            ts == tables_view(tables@),
            sel == selected_view(*selected),
            frame_view(out@) == frame_upto(ts, sel, simplified, i as int),
        decreases tables.len() - i,
    {
        let t = &tables[i];
        assert(ts[i as int] == t@);
        if t.visible {
            push_table(&mut out, tables, selected, simplified, t);
        }
        i += 1;
        assert(frame_view(out@) =~= frame_upto(ts, sel, simplified, i as int));
    }
    out
}

} // verus!
