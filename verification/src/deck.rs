//! The columns beside the timeline.
use vstd::prelude::*;

use crate::text::same_text;

verus! {

/// A column beside the timeline.
#[derive(Debug, PartialEq, Eq)]
pub enum DeckColumn {
    Settings,
    Admin,
    ConfigEditor,
    Thread { thread_ts: String },
}

/// What a [`DeckColumn`] says: its texts as sequences of characters.
#[verifier::ext_equal]
pub enum DeckColumnModel {
    Settings,
    Admin,
    ConfigEditor,
    Thread { thread_ts: Seq<char> },
}

impl DeepView for DeckColumn {
    type V = DeckColumnModel;

    open spec fn deep_view(&self) -> DeckColumnModel {
        match self {
            DeckColumn::Settings => DeckColumnModel::Settings,
            DeckColumn::Admin => DeckColumnModel::Admin,
            DeckColumn::ConfigEditor => DeckColumnModel::ConfigEditor,
            DeckColumn::Thread { thread_ts } => DeckColumnModel::Thread { thread_ts: thread_ts@ },
        }
    }
}

impl Clone for DeckColumn {
    fn clone(&self) -> (copy: Self)
        ensures
            copy.deep_view() == self.deep_view(),
    {
        match self {
            DeckColumn::Settings => DeckColumn::Settings,
            DeckColumn::Admin => DeckColumn::Admin,
            DeckColumn::ConfigEditor => DeckColumn::ConfigEditor,
            DeckColumn::Thread { thread_ts } => {
                let copy = DeckColumn::Thread { thread_ts: thread_ts.clone() };
                assert(copy.deep_view() =~= self.deep_view());
                copy
            },
        }
    }
}

/// The columns beside the timeline, from left to right.
#[derive(Debug)]
pub struct DeckState {
    pub columns: Vec<DeckColumn>,
}

/// What a [`DeckState`] says: its texts as sequences of characters.
#[verifier::ext_equal]
pub struct DeckStateModel {
    pub columns: Seq<DeckColumnModel>,
}

impl DeepView for DeckState {
    type V = DeckStateModel;

    open spec fn deep_view(&self) -> DeckStateModel {
        DeckStateModel {
            columns: self.columns.deep_view(),
        }
    }
}

impl Clone for DeckState {
    fn clone(&self) -> (copy: Self)
        ensures
            copy.deep_view() == self.deep_view(),
    {
        let copy = DeckState {
            columns: self.columns.clone(),
        };
        assert(copy.columns.deep_view() =~= self.columns.deep_view());
        copy
    }
}

impl Default for DeckState {
    fn default() -> (value: Self)
        ensures
            value.deep_view() == (DeckStateModel {
                columns: Seq::empty(),
            }),
    {
        let value = DeckState {
            columns: Vec::new(),
        };
        assert(value.deep_view() =~= (DeckStateModel {
            columns: Seq::empty(),
        }));
        value
    }
}

/// Columns with one that is open at most once.
pub open spec fn with_column(columns: Seq<DeckColumnModel>, column: DeckColumnModel) -> Seq<
    DeckColumnModel,
> {
    if columns.contains(column) {
        columns
    } else {
        columns.push(column)
    }
}

/// Columns without the first that is the given one.
pub open spec fn without_column(columns: Seq<DeckColumnModel>, column: DeckColumnModel) -> Seq<
    DeckColumnModel,
>
    decreases columns.len(),
{
    if columns.len() == 0 {
        columns
    } else if columns.first() == column {
        columns.skip(1)
    } else {
        seq![columns.first()] + without_column(columns.skip(1), column)
    }
}

fn same_column(left: &DeckColumn, right: &DeckColumn) -> (r: bool)
    ensures
        r == (left.deep_view() == right.deep_view()),
{
    match (left, right) {
        (DeckColumn::Settings, DeckColumn::Settings) => true,
        (DeckColumn::Admin, DeckColumn::Admin) => true,
        (DeckColumn::ConfigEditor, DeckColumn::ConfigEditor) => true,
        (DeckColumn::Thread { thread_ts: l }, DeckColumn::Thread { thread_ts: r }) => same_text(
            l.as_str(),
            r.as_str(),
        ),
        _ => false,
    }
}

proof fn lemma_without_column(columns: Seq<DeckColumnModel>, column: DeckColumnModel, at: int)
    requires
        0 <= at <= columns.len(),
        forall|k: int| 0 <= k < at ==> columns[k] != column,
    ensures
        at < columns.len() && columns[at] == column ==> without_column(columns, column)
            == columns.remove(at),
        at == columns.len() ==> without_column(columns, column) == columns,
    decreases at,
{
    if at > 0 {
        let rest = columns.skip(1);
        assert forall|k: int| 0 <= k < at - 1 implies rest[k] != column by {
            assert(columns[k + 1] != column);
        }
        lemma_without_column(rest, column, at - 1);
        if at < columns.len() {
            assert(seq![columns.first()] + rest.remove(at - 1) =~= columns.remove(at));
        } else {
            assert(seq![columns.first()] + rest =~= columns);
        }
    } else if columns.len() > 0 && columns[0] == column {
        assert(columns.skip(1) =~= columns.remove(0));
    }
}

impl DeckState {
    /// The position of a column.
    fn position(&self, column: &DeckColumn) -> (r: Option<usize>)
        ensures
            match r {
                Some(at) => at < self.columns.len() && self.deep_view().columns[at as int]
                    == column.deep_view() && forall|k: int|
                    0 <= k < at ==> self.deep_view().columns[k] != column.deep_view(),
                None => !self.deep_view().columns.contains(column.deep_view()) && forall|k: int|
                    0 <= k < self.columns.len() ==> self.deep_view().columns[k]
                        != column.deep_view(),
            },
    {
        let ghost all = self.columns.deep_view();
        let mut at: usize = 0;
        while at < self.columns.len()
            invariant
                at <= self.columns.len(),
                all == self.columns.deep_view(),
                forall|k: int| 0 <= k < at ==> all[k] != column.deep_view(),
            decreases self.columns.len() - at,
        {
            assert(all[at as int] == self.columns[at as int].deep_view());
            if same_column(&self.columns[at], column) {
                return Some(at);
            }
            at += 1;
        }
        None
    }

    /// Whether a column is open.
    fn has(&self, column: &DeckColumn) -> (r: bool)
        ensures
            r == self.deep_view().columns.contains(column.deep_view()),
    {
        match self.position(column) {
            Some(at) => {
                assert(self.deep_view().columns[at as int] == column.deep_view());
                true
            },
            None => false,
        }
    }

    fn push(&mut self, column: DeckColumn)
        ensures
            final(self).deep_view().columns == old(self).deep_view().columns.push(
                column.deep_view(),
            ),
    {
        let ghost before = self.columns.deep_view();
        let ghost added = column.deep_view();
        self.columns.push(column);
        assert(self.columns.deep_view() =~= before.push(added));
    }

    /// Opens the settings, unless they are open.
    pub fn open_settings(&mut self)
        ensures
            final(self).deep_view().columns == with_column(
                old(self).deep_view().columns,
                DeckColumnModel::Settings,
            ),
    {
        if !self.has(&DeckColumn::Settings) {
            self.push(DeckColumn::Settings);
        }
    }

    /// Opens a thread in a column of its own.
    pub fn open_thread(&mut self, thread_ts: String)
        ensures
            final(self).deep_view().columns == old(self).deep_view().columns.push(
                DeckColumnModel::Thread { thread_ts: thread_ts@ },
            ),
    {
        self.push(DeckColumn::Thread { thread_ts });
    }

    /// Opens the administration, unless it is open.
    pub fn open_admin(&mut self)
        ensures
            final(self).deep_view().columns == with_column(
                old(self).deep_view().columns,
                DeckColumnModel::Admin,
            ),
    {
        if !self.has(&DeckColumn::Admin) {
            self.push(DeckColumn::Admin);
        }
    }

    /// Opens the editor of the settings, unless it is open.
    pub fn open_config_editor(&mut self)
        ensures
            final(self).deep_view().columns == with_column(
                old(self).deep_view().columns,
                DeckColumnModel::ConfigEditor,
            ),
    {
        if !self.has(&DeckColumn::ConfigEditor) {
            self.push(DeckColumn::ConfigEditor);
        }
    }

    /// Closes the editor of the settings.
    pub fn close_config_editor(&mut self)
        ensures
            final(self).deep_view().columns == without_column(
                old(self).deep_view().columns,
                DeckColumnModel::ConfigEditor,
            ),
    {
        let ghost before = self.columns.deep_view();
        match self.position(&DeckColumn::ConfigEditor) {
            Some(at) => {
                proof {
                    lemma_without_column(before, DeckColumnModel::ConfigEditor, at as int);
                }
                self.columns.remove(at);
                assert(self.columns.deep_view() =~= before.remove(at as int));
            },
            None => {
                proof {
                    lemma_without_column(
                        before,
                        DeckColumnModel::ConfigEditor,
                        before.len() as int,
                    );
                }
            },
        }
    }

    /// Opens a thread, unless it is open.
    pub fn ensure_thread_open(&mut self, thread_ts: String)
        ensures
            final(self).deep_view().columns == with_column(
                old(self).deep_view().columns,
                DeckColumnModel::Thread { thread_ts: thread_ts@ },
            ),
    {
        let column = DeckColumn::Thread { thread_ts };
        if !self.has(&column) {
            self.push(column);
        }
    }

    /// Closes the column at a position, if there is one.
    pub fn close(&mut self, index: usize)
        ensures
            final(self).deep_view().columns == (if index < old(self).deep_view().columns.len() {
                old(self).deep_view().columns.remove(index as int)
            } else {
                old(self).deep_view().columns
            }),
    {
        let ghost before = self.columns.deep_view();
        if index < self.columns.len() {
            self.columns.remove(index);
            assert(self.columns.deep_view() =~= before.remove(index as int));
        }
    }

    /// Closes the last column; true if there was one.
    pub fn close_last(&mut self) -> (closed: bool)
        ensures
            closed == (old(self).deep_view().columns.len() > 0),
            final(self).deep_view().columns == (if closed {
                old(self).deep_view().columns.drop_last()
            } else {
                old(self).deep_view().columns
            }),
    {
        let ghost before = self.columns.deep_view();
        match self.columns.pop() {
            Some(column) => {
                assert(self.columns.deep_view() =~= before.drop_last());
                true
            },
            None => false,
        }
    }

    /// Whether the settings are open.
    pub fn has_settings(&self) -> (r: bool)
        ensures
            r == self.deep_view().columns.contains(DeckColumnModel::Settings),
    {
        self.has(&DeckColumn::Settings)
    }

    /// Whether the administration is open.
    pub fn has_admin(&self) -> (r: bool)
        ensures
            r == self.deep_view().columns.contains(DeckColumnModel::Admin),
    {
        self.has(&DeckColumn::Admin)
    }

    /// Whether the editor of the settings is open.
    pub fn has_config_editor(&self) -> (r: bool)
        ensures
            r == self.deep_view().columns.contains(DeckColumnModel::ConfigEditor),
    {
        self.has(&DeckColumn::ConfigEditor)
    }
}

/// A column that is opened is open, once it is open opening it changes nothing, and no other
/// column is opened or closed by it.
pub proof fn law_opening_a_column(
    columns: Seq<DeckColumnModel>,
    column: DeckColumnModel,
    other: DeckColumnModel,
)
    ensures
        with_column(columns, column).contains(column),
        with_column(with_column(columns, column), column) == with_column(columns, column),
        other != column ==> (with_column(columns, column).contains(other) <==> columns.contains(
            other,
        )),
{
    let opened = with_column(columns, column);
    if !columns.contains(column) {
        assert(opened[columns.len() as int] == column);
    }
    if columns.contains(other) {
        let k = choose|k: int| 0 <= k < columns.len() && columns[k] == other;
        assert(opened[k] == other);
    }
    if other != column && opened.contains(other) {
        let k = choose|k: int| 0 <= k < opened.len() && opened[k] == other;
        assert(columns[k] == other);
    }
}

} // verus!
