//! The columns of a picker, and how items get into it.
use nucleo::Injector as ItemSink;
use vstd::prelude::*;
use vstd::string::*;
use crate::matcher;
use crate::text;

verus! {

/// A column of a picker.
pub struct Column {
    pub name: String,
    /// Whether the column is passed to the matcher for matching and filtering.
    /// A dynamic picker turns this off for the column that its items were
    /// already searched by, so that it is not used for filtering twice.
    pub filter: bool,
    pub hidden: bool,
}

impl Column {
    /// A column that is shown and filtered by.
    pub fn new(name: &str) -> (column: Column)
        ensures
            column.name@ == name@,
            column.filter,
            !column.hidden,
    {
        Column { name: name.to_string(), filter: true, hidden: false }
    }

    /// A column which does not display any contents.
    pub fn hidden(name: &str) -> (column: Column)
        ensures
            column.name@ == name@,
            !column.filter,
            column.hidden,
    {
        Column { name: name.to_string(), filter: false, hidden: true }
    }

    /// The column, not filtered by.
    pub fn without_filtering(self) -> (column: Column)
        ensures
            column == (Column { filter: false, ..self }),
    {
        Column { name: self.name, filter: false, hidden: self.hidden }
    }

    /// An equal column.
    pub fn duplicate(&self) -> (column: Column)
        ensures
            column.name@ == self.name@,
            column.filter == self.filter,
            column.hidden == self.hidden,
    {
        Column { name: self.name.clone(), filter: self.filter, hidden: self.hidden }
    }
}

/// Whether two lists of columns are equal.
pub open spec fn same_columns(a: Seq<Column>, b: Seq<Column>) -> bool {
    a.len() == b.len() && forall|i: int|
        0 <= i < a.len() ==> (#[trigger] a[i]).name@ == b[i].name@ && a[i].filter == b[i].filter
            && a[i].hidden == b[i].hidden
}

/// An equal list of columns.
pub fn copy_columns(columns: &Vec<Column>) -> (copy: Vec<Column>)
    ensures
        same_columns(copy@, columns@),
{
    let mut copy: Vec<Column> = Vec::new();
    let mut i: usize = 0;
    while i < columns.len()
        invariant
            copy@.len() == i <= columns@.len(),
            forall|j: int|
                0 <= j < i ==> (#[trigger] copy@[j]).name@ == columns@[j].name@ && copy@[j].filter
                    == columns@[j].filter && copy@[j].hidden == columns@[j].hidden,
        decreases columns@.len() - i,
    {
        copy.push(columns[i].duplicate());
        i += 1;
    }
    copy
}

/// The names of the columns that are filtered by, in order. The matcher has
/// one column for each.
pub open spec fn filter_names(columns: Seq<Column>) -> Seq<Seq<char>>
    decreases columns.len(),
{
    if columns.len() == 0 {
        Seq::empty()
    } else {
        let before = filter_names(columns.drop_last());
        if columns.last().filter {
            before.push(columns.last().name@)
        } else {
            before
        }
    }
}

/// The texts of the cells that an item is filtered by, in order.
pub open spec fn filter_cells(columns: Seq<Column>, cells: Seq<String>) -> Seq<Seq<char>>
    decreases columns.len(),
{
    if columns.len() == 0 {
        Seq::empty()
    } else {
        let before = filter_cells(columns.drop_last(), cells);
        if columns.last().filter {
            before.push(cells[columns.len() - 1]@)
        } else {
            before
        }
    }
}

/// The columns before column `i` that are filtered by are the first ones that
/// are, and column `i` comes next.
pub proof fn lemma_filter_prefix(columns: Seq<Column>, i: int)
    requires
        0 <= i <= columns.len(),
    ensures
        filter_names(columns.take(i)).len() <= filter_names(columns).len(),
        filter_names(columns.take(i)).len() <= i,
        forall|j: int|
            0 <= j < filter_names(columns.take(i)).len() ==> filter_names(columns.take(i))[j]
                == filter_names(columns)[j],
        i < columns.len() && columns[i].filter ==> {
            &&& filter_names(columns.take(i)).len() < filter_names(columns).len()
            &&& filter_names(columns)[filter_names(columns.take(i)).len() as int]
                == columns[i].name@
        },
    decreases columns.len(),
{
    if i == columns.len() {
        assert(columns.take(i) =~= columns);
        lemma_filter_count(columns);
    } else {
        lemma_filter_prefix(columns.drop_last(), i);
        assert(columns.drop_last().take(i) =~= columns.take(i));
        if i < columns.len() - 1 {
            assert(columns.drop_last()[i] == columns[i]);
        } else {
            assert(columns.take(i) =~= columns.drop_last());
        }
    }
}

/// No more columns are filtered by than there are.
pub proof fn lemma_filter_count(columns: Seq<Column>)
    ensures
        filter_names(columns).len() <= columns.len(),
    decreases columns.len(),
{
    if columns.len() > 0 {
        lemma_filter_count(columns.drop_last());
    }
}

/// How many columns are filtered by.
pub fn count_filters(columns: &Vec<Column>) -> (count: usize)
    ensures
        count == filter_names(columns@).len(),
{
    let mut count: usize = 0;
    let mut i: usize = 0;
    assert(columns@.take(0) =~= Seq::<Column>::empty());
    while i < columns.len()
        invariant
            count <= i <= columns@.len(),
            count == filter_names(columns@.take(i as int)).len(),
        decreases columns@.len() - i,
    {
        assert(columns@.take(i + 1).drop_last() =~= columns@.take(i as int));
        if columns[i].filter {
            count += 1;
        }
        i += 1;
    }
    assert(columns@.take(columns@.len() as int) =~= columns@);
    count
}

/// The texts that an item is filtered by, of all of its cells.
pub fn filter_texts(columns: &Vec<Column>, cells: &Vec<String>) -> (out: Vec<String>)
    requires
        cells@.len() == columns@.len(),
    ensures
        text::texts(out@) == filter_cells(columns@, cells@),
{
    let mut out: Vec<String> = Vec::new();
    let mut i: usize = 0;
    assert(columns@.take(0) =~= Seq::<Column>::empty());
    assert(text::texts(out@) =~= filter_cells(columns@.take(0), cells@));
    while i < columns.len()
        invariant
            cells@.len() == columns@.len(),
            i <= columns@.len(),
            text::texts(out@) == filter_cells(columns@.take(i as int), cells@),
        decreases columns@.len() - i,
    {
        assert(columns@.take(i + 1).drop_last() =~= columns@.take(i as int));
        if columns[i].filter {
            let ghost before = out@;
            let cell: String = cells[i].clone();
            out.push(cell);
            assert(text::texts(out@) =~= text::texts(before).push(cell@));
        }
        i += 1;
    }
    assert(columns@.take(columns@.len() as int) =~= columns@);
    out
}

/// Adds an item, by its key, to a matcher: each column that is filtered by
/// gets the text of the item's cell. `cells` holds the texts of all columns.
/// The texts that the matcher was given are returned; when the item is found
/// depends on the matcher's threads. The list of items is shared with whoever
/// else has a handle to it, so that nothing else is added cannot be said.
pub fn inject_nucleo_item(
    injector: &ItemSink<u64>,
    columns: &Vec<Column>,
    key: u64,
    cells: &Vec<String>,
) -> (texts: Vec<String>)
    requires
        cells@.len() == columns@.len(),
    ensures
        text::texts(texts@) == filter_cells(columns@, cells@),
        matcher::offered(
            matcher::items_of(*injector),
            key,
            filter_cells(columns@, cells@),
        ),
{
    let texts: Vec<String> = filter_texts(columns, cells);
    let _ = matcher::push_item(injector, key, &texts);
    texts
}

/// The picker that items were meant for has been shut down.
#[derive(Debug, Clone, Copy, PartialEq, Eq, Structural)]
pub struct InjectorShutdown;

impl InjectorShutdown {
    /// The error in words.
    pub fn message(&self) -> (message: String)
        ensures
            message@ == "picker has been shut down"@,
    {
        "picker has been shut down".to_string()
    }
}

/// A handle through which items are added to a picker, also while it is open.
pub struct Injector {
    pub dst: ItemSink<u64>,
    pub columns: Vec<Column>,
    /// The version of the picker that items are meant for.
    pub version: usize,
}

impl Clone for Injector {
    fn clone(&self) -> (other: Injector)
        ensures
            matcher::items_of(other.dst) == matcher::items_of(self.dst),
            same_columns(other.columns@, self.columns@),
            other.version == self.version,
    {
        Injector {
            dst: matcher::another_sink(&self.dst),
            columns: copy_columns(&self.columns),
            version: self.version,
        }
    }
}

impl Injector {
    /// Adds an item, unless the picker has moved on to another version since
    /// the handle was made. `picker_version` is the version that it is at now.
    ///
    /// The list of items is shared with whoever else has a handle to it: what
    /// is stated is that the item is in it, not that nothing else is.
    pub fn push(&self, key: u64, cells: &Vec<String>, picker_version: usize) -> (pushed: Result<
        (),
        InjectorShutdown,
    >)
        requires
            cells@.len() == self.columns@.len(),
        ensures
            pushed is Ok <==> self.version == picker_version,
            pushed is Ok ==> matcher::offered(
                matcher::items_of(self.dst),
                key,
                filter_cells(self.columns@, cells@),
            ),
    {
        if self.version != picker_version {
            return Err(InjectorShutdown);
        }
        let _ = inject_nucleo_item(&self.dst, &self.columns, key, cells);
        Ok(())
    }
}

/// How many of the first columns are filtered by.
pub open spec fn filters_before(columns: Seq<Column>, i: int) -> int
    decreases i,
{
    if i <= 0 {
        0
    } else if columns[i - 1].filter {
        filters_before(columns, i - 1) + 1
    } else {
        filters_before(columns, i - 1)
    }
}

/// The matcher has one column for each column that is filtered by, in order:
/// it goes by that column's name and is filled with that column's cell.
pub proof fn law_filter_columns_line_up(columns: Seq<Column>, cells: Seq<String>, i: int)
    requires
        0 <= i < columns.len(),
        columns[i].filter,
    ensures
        filter_names(columns).len() == filters_before(columns, columns.len() as int),
        filter_cells(columns, cells).len() == filters_before(columns, columns.len() as int),
        0 <= filters_before(columns, i) < filters_before(columns, columns.len() as int),
        filter_names(columns)[filters_before(columns, i)] == columns[i].name@,
        filter_cells(columns, cells)[filters_before(columns, i)] == cells[i]@,
    decreases columns.len(),
{
    let before = columns.drop_last();
    lemma_filters_counted(columns, cells);
    lemma_filters_counted(before, cells);
    lemma_filters_before(columns, before, before.len() as int);
    lemma_filters_before(columns, before, i);
    if i < before.len() {
        law_filter_columns_line_up(before, cells, i);
    }
}

/// A column that is not filtered by has no part in what is matched.
pub proof fn law_other_columns_are_not_matched(
    columns: Seq<Column>,
    cells: Seq<String>,
    other: Seq<String>,
)
    requires
        cells.len() == columns.len(),
        other.len() == columns.len(),
        forall|i: int|
            0 <= i < columns.len() && (#[trigger] columns[i]).filter ==> cells[i]@ == other[i]@,
    ensures
        filter_cells(columns, cells) == filter_cells(columns, other),
    decreases columns.len(),
{
    if columns.len() > 0 {
        let before = columns.drop_last();
        assert forall|i: int|
            0 <= i < before.len() && (#[trigger] before[i]).filter implies cells.drop_last()[i]@
            == other.drop_last()[i]@ by {
            assert(columns[i] == before[i]);
        }
        law_other_columns_are_not_matched(before, cells.drop_last(), other.drop_last());
        lemma_first_cells_count(before, cells, cells.drop_last());
        lemma_first_cells_count(before, other, other.drop_last());
        assert(columns[columns.len() - 1] == columns.last());
    }
}

proof fn lemma_first_cells_count(columns: Seq<Column>, a: Seq<String>, b: Seq<String>)
    requires
        columns.len() <= a.len(),
        columns.len() <= b.len(),
        forall|i: int| 0 <= i < columns.len() ==> a[i] == b[i],
    ensures
        filter_cells(columns, a) == filter_cells(columns, b),
    decreases columns.len(),
{
    if columns.len() > 0 {
        lemma_first_cells_count(columns.drop_last(), a, b);
    }
}

/// There are as many names and cells to filter by as columns that are.
pub proof fn lemma_filters_counted(columns: Seq<Column>, cells: Seq<String>)
    ensures
        filter_names(columns).len() == filters_before(columns, columns.len() as int),
        filter_cells(columns, cells).len() == filters_before(columns, columns.len() as int),
    decreases columns.len(),
{
    if columns.len() > 0 {
        let before = columns.drop_last();
        lemma_filters_counted(before, cells);
        lemma_filters_before(columns, before, before.len() as int);
    }
}

/// What comes behind them makes no difference to the first columns.
pub proof fn lemma_filters_before(a: Seq<Column>, b: Seq<Column>, i: int)
    requires
        0 <= i <= a.len(),
        i <= b.len(),
        forall|j: int| 0 <= j < i ==> a[j] == b[j],
    ensures
        filters_before(a, i) == filters_before(b, i),
        0 <= filters_before(a, i) <= i,
    decreases i,
{
    if i > 0 {
        lemma_filters_before(a, b, i - 1);
    }
}

/// Equal lists of columns have the same columns in the same order: names,
/// whether they are filtered by and whether they are hidden.
pub proof fn law_equal_columns_have_all_in_common(a: Seq<Column>, b: Seq<Column>, i: int)
    requires
        same_columns(a, b),
        0 <= i < a.len(),
    ensures
        a.len() == b.len(),
        a[i].name@ == b[i].name@,
        a[i].filter == b[i].filter,
        a[i].hidden == b[i].hidden,
{
}

} // verus!
