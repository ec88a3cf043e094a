use vstd::prelude::*;

use crate::diagram::{filtered, step, without_named, Diagram, DiagramView, PointerEvent, Response};
use crate::geometry::{Point, Vector, ZOOM_SCALE};
use crate::model::{
    clone_tables, tables_view, Column, ColumnView, ForeignKey, ForeignKeyView, Model, Table,
    TablePoint, TableView,
};
use crate::filter::str_eq;
use crate::render::{frame_view, scene, Primitive};
use crate::text::{chars_of, nat_text, push_nat};

verus! {

/// What the editor is told: choices in the toolbar and sidebar, results of
/// outside work, and canvas events.
pub enum Message {
    SchemaChanged(String),
    SubjectAreaChanged(String),
    SearchChanged(String),
    ExportJson,
    ImportJson,
    ExportDDL,
    SyncDatabase,
    LoadSchema(Result<Model, String>),
    SyncComplete(Result<(), String>),
    CanvasEvent(PointerEvent),
    ShowContextMenu(Point),
    ContextMenuAction(String),
    Undo,
}

/// Outside work that the host performs after an update.
pub enum Command {
    Nothing,
    /// Save this JSON text.
    SaveJson(String),
    /// Save this DDL text.
    SaveDdl(String),
    /// Let the user pick a JSON file, and answer with `LoadSchema`.
    OpenJson,
    /// Synchronise with the database, and answer with `SyncComplete`.
    SyncDatabase,
}

/// The abstract state of the editor.
pub struct TableForgeView {
    pub schemas: Seq<Seq<char>>,
    pub current_schema: Seq<char>,
    pub subject_areas: Seq<Seq<char>>,
    pub current_subject_area: Seq<char>,
    pub diagram: DiagramView,
    pub query: Seq<char>,
    pub is_syncing: bool,
    pub context_menu: Option<(Point, Seq<char>)>,
}

/// The editor: the filter choices, the diagram, and the open context menu.
pub struct TableForge {
    schemas: Vec<String>,
    current_schema: String,
    subject_areas: Vec<String>,
    current_subject_area: String,
    diagram: Diagram,
    query: String,
    is_syncing: bool,
    context_menu: Option<(Point, String)>,
}

pub open spec fn strings_view(v: Seq<String>) -> Seq<Seq<char>> {
    v.map_values(|s: String| s@)
}

impl View for TableForge {
    type V = TableForgeView;

    closed spec fn view(&self) -> TableForgeView {
        TableForgeView {
            schemas: strings_view(self.schemas@),
            current_schema: self.current_schema@,
            subject_areas: strings_view(self.subject_areas@),
            current_subject_area: self.current_subject_area@,
            diagram: self.diagram@,
            query: self.query@,
            is_syncing: self.is_syncing,
            context_menu: match self.context_menu {
                Some((p, s)) => Some((p, s@)),
                None => None,
            },
        }
    }
}

/// Table `i` (from one) of the sample diagram the editor starts with.
pub open spec fn sample_table(i: int) -> TableView {
    TableView {
        name: "table"@ + nat_text(i as nat),
        schema: if i <= 5 {
            "public"@
        } else {
            "inventory"@
        },
        subject_area: if i <= 3 {
            "orders"@
        } else {
            "tables"@
        },
        position: Point { x: (i * 120 % 600) as i64, y: (i / 5 * 60) as i64 },
        columns: seq![ColumnView { name: "id"@, data_type: "serial"@ }],
        foreign_keys: if 1 < i <= 5 {
            seq![ForeignKeyView { column: "id"@, referenced_table: "table"@ + nat_text((i - 1) as nat) }]
        } else {
            Seq::empty()
        },
        visible: i <= 5,
    }
}

/// Where the first colon of an action string stands.
pub open spec fn colon_at(s: Seq<char>, i: int) -> bool {
    0 <= i < s.len() && s[i] == ':' && forall|j: int| 0 <= j < i ==> s[j] != ':'
}

/// An action string split at its first colon: the verb and the table name.
pub open spec fn action_parts(s: Seq<char>) -> Option<(Seq<char>, Seq<char>)> {
    if exists|i: int| colon_at(s, i) {
        let i = choose|i: int| colon_at(s, i);
        Some((s.subrange(0, i), s.subrange(i + 1, s.len() as int)))
    } else {
        None
    }
}

/// The action `delete:<name>` deletes exactly the tables called `name`: each
/// other table stays, in order, and when no table has that name nothing changes.
pub proof fn lemma_delete_action(ts: Seq<TableView>, name: Seq<char>)
    ensures
        action_parts("delete:"@ + name) == Some(("delete"@, name)),
        forall|t: TableView| #[trigger]
            without_named(ts, name).contains(t) <==> ts.contains(t) && t.name != name,
        (forall|i: int| 0 <= i < ts.len() ==> ts[i].name != name) ==> without_named(ts, name) == ts,
{
    reveal_strlit("delete:");
    reveal_strlit("delete");
    let s = "delete:"@ + name;
    assert(colon_at(s, 6));
    let i = choose|i: int| colon_at(s, i);
    assert(i == 6) by {
        if i < 6 {
            assert(s[i] != ':');
        } else if i > 6 {
            assert(s[6] == ':');
        }
    }
    assert(s.subrange(0, 6) =~= "delete"@);
    assert(s.subrange(7, s.len() as int) =~= name);
    let pred = crate::diagram::keep_pred(name);
    assert forall|t: TableView| #[trigger]
        without_named(ts, name).contains(t) <==> ts.contains(t) && t.name != name by {
        if without_named(ts, name).contains(t) {
            ts.lemma_filter_contains_rev(pred, t);
            let k = choose|k: int|
                0 <= k < without_named(ts, name).len() && without_named(ts, name)[k] == t;
            ts.lemma_filter_pred(pred, k);
        }
        if ts.contains(t) && t.name != name {
            let k = choose|k: int| 0 <= k < ts.len() && ts[k] == t;
            ts.lemma_filter_contains(pred, k);
        }
    }
    if forall|i: int| 0 <= i < ts.len() ==> ts[i].name != name {
        lemma_filter_all(ts, pred);
    }
}

proof fn lemma_filter_all(ts: Seq<TableView>, pred: spec_fn(TableView) -> bool)
    requires
        forall|i: int| 0 <= i < ts.len() ==> pred(ts[i]),
    ensures
        ts.filter(pred) == ts,
    decreases ts.len(),
{
    reveal(Seq::filter);
    if ts.len() > 0 {
        lemma_filter_all(ts.drop_last(), pred);
        assert(ts.drop_last().push(ts.last()) =~= ts);
    } else {
        assert(ts.filter(pred) =~= ts);
    }
}

fn table_name(i: u64) -> (r: String)
    ensures
        r@ == "table"@ + nat_text(i as nat),
{
    let mut name = String::from_str("table");
    push_nat(&mut name, i);
    name
}

fn sample(i: u64) -> (r: Table)
    requires
        1 <= i <= 10,
    ensures
        r@ == sample_table(i as int),
{
    let foreign_keys = if 1 < i && i <= 5 {
        let fk = ForeignKey { column: String::from_str("id"), referenced_table: table_name(i - 1) };
        let mut v: Vec<ForeignKey> = Vec::new();
        v.push(fk);
        v
    } else {
        Vec::new()
    };
    let mut columns: Vec<Column> = Vec::new();
    columns.push(Column { name: String::from_str("id"), data_type: String::from_str("serial") });
    let t = Table {
        name: table_name(i),
        schema: if i <= 5 {
            String::from_str("public")
        } else {
            String::from_str("inventory")
        },
        subject_area: if i <= 3 {
            String::from_str("orders")
        } else {
            String::from_str("tables")
        },
        position: TablePoint(Point { x: (i * 120 % 600) as i64, y: (i / 5 * 60) as i64 }),
        columns,
        foreign_keys,
        visible: i <= 5,
    };
    assert(t@.columns =~= seq![ColumnView { name: "id"@, data_type: "serial"@ }]);
    assert(t@.foreign_keys =~= sample_table(i as int).foreign_keys);
    t
}

/// Splits an action string at its first colon.
pub fn split_action(action: &str) -> (r: Option<(String, String)>)
    ensures
        match r {
            Some((verb, name)) => action_parts(action@) == Some((verb@, name@)),
            None => action_parts(action@) is None,
        },
{
    let cs = chars_of(action);
    let n = cs.len();
    let mut i: usize = 0;
    while i < n
        invariant
            n == cs@.len(),
            cs@ == action@,
            i <= n,
            forall|j: int| 0 <= j < i ==> cs@[j] != ':',
        decreases n - i,
    {
        if cs[i] == ':' {
            assert(colon_at(action@, i as int));
            proof {
                let k = choose|k: int| colon_at(action@, k);
                assert(k == i) by {
                    if k < i {
                        assert(action@[k] != ':');
                    } else if k > i {
                        assert(action@[i as int] != ':');
                    }
                }
            }
            let verb = action.substring_char(0, i);
            let name = action.substring_char(i + 1, n);
            return Some((verb.to_owned(), name.to_owned()));
        }
        i += 1;
    }
    assert forall|k: int| !colon_at(action@, k) by {
        if 0 <= k < n {
            assert(action@[k] != ':');
        }
    }
    None
}

impl TableForge {
    /// The editor's own invariant: the diagram is well formed.
    pub closed spec fn wf(&self) -> bool {
        self.diagram.wf()
    }

    /// An editor on the sample diagram: ten tables, five in `public` (shown) and
    /// five in `inventory`, with `public` and `orders` chosen and no query.
    pub fn new() -> (r: TableForge)
        ensures
            r.wf(),
            r@.diagram == (DiagramView {
                tables: Seq::new(10, |k: int| sample_table(k + 1)),
                simplified: true,
                zoom: ZOOM_SCALE as int,
                pan: Vector { x: 0, y: 0 },
                selected: None,
                last_position: None,
                cached: false,
            }),
            r@.schemas == seq!["public"@, "inventory"@],
            r@.subject_areas == seq!["orders"@, "tables"@],
            r@.current_schema == "public"@,
            r@.current_subject_area == "orders"@,
            r@.query.len() == 0,
            !r@.is_syncing,
            r@.context_menu is None,
    {
        let mut tables: Vec<Table> = Vec::new();
        let mut i: u64 = 1;
        while i <= 10
            invariant
                1 <= i <= 11,
                tables@.len() == i - 1,
                forall|k: int| 0 <= k < i - 1 ==> #[trigger] tables@[k]@ == sample_table(k + 1),
            decreases 11 - i,
        {
            tables.push(sample(i));
            i += 1;
        }
        assert(tables_view(tables@) =~= Seq::new(10, |k: int| sample_table(k + 1)));
        let mut schemas: Vec<String> = Vec::new();
        schemas.push(String::from_str("public"));
        schemas.push(String::from_str("inventory"));
        let mut subject_areas: Vec<String> = Vec::new();
        subject_areas.push(String::from_str("orders"));
        subject_areas.push(String::from_str("tables"));
        let r = TableForge {
            schemas,
            subject_areas,
            current_schema: String::from_str("public"),
            current_subject_area: String::from_str("orders"),
            diagram: Diagram::new(tables),
            query: String::new(),
            is_syncing: false,
            context_menu: None,
        };
        assert(r@.schemas =~= seq!["public"@, "inventory"@]);
        assert(r@.subject_areas =~= seq!["orders"@, "tables"@]);
        r
    }

    pub fn diagram(&self) -> (r: &Diagram)
        ensures
            r@ == self@.diagram,
    {
        &self.diagram
    }

    pub fn schemas(&self) -> (r: &Vec<String>)
        ensures
            strings_view(r@) == self@.schemas,
    {
        &self.schemas
    }

    pub fn current_schema(&self) -> (r: &String)
        ensures
            r@ == self@.current_schema,
    {
        &self.current_schema
    }

    pub fn query(&self) -> (r: &String)
        ensures
            r@ == self@.query,
    {
        &self.query
    }

    /// The diagram's frame, rendered anew only if its cache was dropped.
    pub fn draw(&mut self) -> (r: Vec<Primitive>)
        requires
            old(self).wf(),
        ensures
            final(self).wf(),
            frame_view(r@) == scene(old(self)@.diagram),
            final(self)@ == (TableForgeView {
                diagram: DiagramView { cached: true, ..old(self)@.diagram },
                ..old(self)@
            }),
    {
        self.diagram.draw()
    }

    pub fn is_syncing(&self) -> (r: bool)
        ensures
            r == self@.is_syncing,
    {
        self.is_syncing
    }

    /// The open context menu: where it stands and which table it is for.
    pub fn context_menu(&self) -> (r: Option<(Point, String)>)
        ensures
            match r {
                Some((p, s)) => self@.context_menu == Some((p, s@)),
                None => self@.context_menu is None,
            },
    {
        match &self.context_menu {
            Some((p, s)) => Some((*p, s.clone())),
            None => None,
        }
    }

    fn update_table_visibility(&mut self)
        requires
            old(self).wf(),
        ensures
            final(self).wf(),
            final(self)@ == (TableForgeView {
                diagram: DiagramView {
                    tables: filtered(old(self)@.diagram.tables, old(self)@.current_schema, old(self)@.query),
                    cached: false,
                    ..old(self)@.diagram
                },
                ..old(self)@
            }),
    {
        self.diagram.apply_filter(self.current_schema.as_str(), self.query.as_str());
    }

    fn open_context_menu(&mut self, position: Point)
        requires
            old(self).wf(),
        ensures
            final(self).wf(),
            final(self)@ == (TableForgeView {
                context_menu: match old(self)@.diagram.selected {
                    Some(name) => Some((position, name)),
                    None => old(self)@.context_menu,
                },
                ..old(self)@
            }),
    {
        match self.diagram.selected_table() {
            Some(name) => {
                self.context_menu = Some((position, name.clone()));
            },
            None => {},
        }
    }

    /// Handles one message, and names the outside work that follows it.
    pub fn update(&mut self, message: Message) -> (r: Command)
        requires
            old(self).wf(),
        ensures
            final(self).wf(),
            update_spec(old(self)@, message, final(self)@, r),
    {
        match message {
            Message::SchemaChanged(schema) => {
                self.current_schema = schema;
                self.update_table_visibility();
                Command::Nothing
            },
            Message::SubjectAreaChanged(area) => {
                self.current_subject_area = area;
                self.update_table_visibility();
                Command::Nothing
            },
            Message::SearchChanged(query) => {
                self.query = query;
                self.update_table_visibility();
                Command::Nothing
            },
            Message::ExportJson => {
                let model = Model { tables: clone_tables(self.diagram.tables()) };
                Command::SaveJson(model.to_json())
            },
            Message::ExportDDL => {
                let model = Model { tables: clone_tables(self.diagram.tables()) };
                Command::SaveDdl(model.to_ddl())
            },
            Message::ImportJson => Command::OpenJson,
            Message::SyncDatabase => {
                if self.is_syncing {
                    Command::Nothing
                } else {
                    self.is_syncing = true;
                    Command::SyncDatabase
                }
            },
            Message::Undo => Command::Nothing,
            Message::LoadSchema(data) => {
                match data {
                    Ok(model) => {
                        self.diagram.set_tables(model.tables);
                        self.update_table_visibility();
                    },
                    Err(_) => {},
                }
                Command::Nothing
            },
            Message::SyncComplete(_) => {
                self.is_syncing = false;
                Command::Nothing
            },
            Message::CanvasEvent(event) => {
                match self.diagram.update(event) {
                    Response::ShowContextMenu(p) => self.open_context_menu(p),
                    _ => {},
                }
                Command::Nothing
            },
            Message::ShowContextMenu(position) => {
                self.open_context_menu(position);
                Command::Nothing
            },
            Message::ContextMenuAction(action) => {
                self.context_menu = None;
                match split_action(action.as_str()) {
                    Some((verb, name)) => {
                        if str_eq(verb.as_str(), "delete") {
                            self.diagram.delete_table(name.as_str());
                        }
                    },
                    None => {},
                }
                Command::Nothing
            },
        }
    }
}

/// The context menu after the canvas answered `response`.
pub open spec fn menu_after(
    menu: Option<(Point, Seq<char>)>,
    selected: Option<Seq<char>>,
    response: Response,
) -> Option<(Point, Seq<char>)> {
    match response {
        Response::ShowContextMenu(p) => match selected {
            Some(name) => Some((p, name)),
            None => menu,
        },
        _ => menu,
    }
}

/// What `update` does: the state after a message, and the outside work it asks for.
pub open spec fn update_spec(
    v: TableForgeView,
    message: Message,
    after: TableForgeView,
    command: Command,
) -> bool {
    match message {
        Message::SchemaChanged(schema) => {
            &&& after == TableForgeView {
                current_schema: schema@,
                diagram: DiagramView {
                    tables: filtered(v.diagram.tables, schema@, v.query),
                    cached: false,
                    ..v.diagram
                },
                ..v
            }
            &&& command is Nothing
        },
        Message::SubjectAreaChanged(area) => {
            &&& after == TableForgeView {
                current_subject_area: area@,
                diagram: DiagramView {
                    tables: filtered(v.diagram.tables, v.current_schema, v.query),
                    cached: false,
                    ..v.diagram
                },
                ..v
            }
            &&& command is Nothing
        },
        Message::SearchChanged(query) => {
            &&& after == TableForgeView {
                query: query@,
                diagram: DiagramView {
                    tables: filtered(v.diagram.tables, v.current_schema, query@),
                    cached: false,
                    ..v.diagram
                },
                ..v
            }
            &&& command is Nothing
        },
        Message::ExportJson => after == v && (command matches Command::SaveJson(text) && text@
            == crate::codec::model_json(v.diagram.tables)),
        Message::ExportDDL => after == v && (command matches Command::SaveDdl(text) && text@
            == crate::model::ddl_of(v.diagram.tables)),
        Message::ImportJson => after == v && command is OpenJson,
        Message::SyncDatabase => if v.is_syncing {
            after == v && command is Nothing
        } else {
            after == TableForgeView { is_syncing: true, ..v } && command is SyncDatabase
        },
        Message::Undo => after == v && command is Nothing,
        Message::LoadSchema(data) => command is Nothing && match data {
            Ok(model) => after == TableForgeView {
                diagram: DiagramView {
                    tables: filtered(model@, v.current_schema, v.query),
                    cached: false,
                    ..v.diagram
                },
                ..v
            },
            Err(_) => after == v,
        },
        Message::SyncComplete(_) => after == TableForgeView { is_syncing: false, ..v } && command is Nothing,
        Message::CanvasEvent(event) => {
            let (d, response) = step(v.diagram, event);
            &&& after == TableForgeView {
                diagram: d,
                context_menu: menu_after(v.context_menu, d.selected, response),
                ..v
            }
            &&& command is Nothing
        },
        Message::ShowContextMenu(position) => {
            &&& after == TableForgeView {
                context_menu: match v.diagram.selected {
                    Some(name) => Some((position, name)),
                    None => v.context_menu,
                },
                ..v
            }
            &&& command is Nothing
        },
        Message::ContextMenuAction(action) => {
            &&& after == TableForgeView {
                context_menu: None,
                diagram: match action_parts(action@) {
                    Some((verb, name)) => if verb == "delete"@ {
                        DiagramView {
                            tables: without_named(v.diagram.tables, name),
                            cached: false,
                            ..v.diagram
                        }
                    } else {
                        v.diagram
                    },
                    None => v.diagram,
                },
                ..v
            }
            &&& command is Nothing
        },
    }
}

} // verus!
