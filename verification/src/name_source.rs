//! The source of names: a page of the name generator at namegen.jp, which lists names of one
//! sex in a table, one name to a row.

use crate::name::{name_views, Name, NameView};
use crate::sex::Sex;
use crate::text::{
    lemma_pieces_hold_no_separator, lemma_trimmed_is_trim, split, split_on, string_views, trim,
    trimmed,
};
use scraper::{ElementRef, Html, Selector};
use vstd::prelude::*;
use vstd::string::StringExecFns;

verus! {

/// Why a response of the name source gave no names.
#[derive(Clone, Copy, Debug, PartialEq, Eq, Structural)]
pub enum SourceError {
    /// No response came. The library never finds this out by itself: it is for the caller who
    /// went to fetch the page to report.
    Unreachable,
    /// The response came with a status that does not mean success.
    BadStatus,
    /// One of the selectors by which the page is searched is not a valid selector.
    BadSelector,
    /// The page has no table of names.
    TableNotFound,
    /// A row has no cell for the name.
    NameCellNotFound,
    /// The name of a row is not a family name and a given name.
    BadName,
    /// A row has no cell for the reading.
    ReadingCellNotFound,
    /// The reading of a row is not two words with one space between them.
    BadReading,
    /// The table has no row but its header.
    NoNames,
}

/// What a row of the table holds, as far as a name is read from it.
#[derive(Clone, Debug, PartialEq, Eq)]
pub struct RowCells {
    /// The text nodes of the cell for the name, in the order of the page, if the row has such a
    /// cell.
    pub name_texts: Option<Vec<String>>,
    /// The markup inside the cell for the reading, if the row has such a cell.
    pub reading_html: Option<String>,
}

/// The content of a [`RowCells`].
pub struct RowCellsView {
    pub name_texts: Option<Seq<Seq<char>>>,
    pub reading_html: Option<Seq<char>>,
}

impl View for RowCells {
    type V = RowCellsView;

    open spec fn view(&self) -> RowCellsView {
        RowCellsView {
            name_texts: match self.name_texts {
                Some(texts) => Some(string_views(texts@)),
                None => None,
            },
            reading_html: match self.reading_html {
                Some(html) => Some(html@),
                None => None,
            },
        }
    }
}

#[verifier::external_type_specification]
#[verifier::external_body]
pub struct ExHtml(Html);

#[verifier::external_type_specification]
#[verifier::external_body]
pub struct ExSelector(Selector);

#[verifier::external_type_specification]
#[verifier::external_body]
pub struct ExElementRef<'a>(ElementRef<'a>);

/// The document that `scraper::Html::parse_document` makes of a text.
pub uninterp spec fn parsed_document(text: Seq<char>) -> Html;

/// The selector that `scraper::Selector::parse` makes of a text, if it makes one.
pub uninterp spec fn parsed_selector(css: Seq<char>) -> Option<Selector>;

/// The elements of a document that `scraper::Html::select` yields for a selector, in its
/// order.
pub uninterp spec fn document_matches(document: Html, selector: Selector) -> Seq<
    ElementRef<'static>,
>;

/// The elements below an element that `scraper::ElementRef::select` yields for a selector, in
/// its order.
pub uninterp spec fn element_matches(element: ElementRef<'_>, selector: Selector) -> Seq<
    ElementRef<'_>,
>;

/// The text nodes below an element that `scraper::ElementRef::text` yields, in its order.
pub uninterp spec fn element_texts(element: ElementRef<'_>) -> Seq<Seq<char>>;

/// The markup inside an element, as `scraper::ElementRef::inner_html` writes it, with the
/// attributes of each element in the order in which the element holds them.
pub uninterp spec fn element_inner_html(element: ElementRef<'_>) -> Seq<char>;

/// Parses a text as an HTML document with `scraper::Html::parse_document`, which takes any
/// text and makes the best document of it. The document is a function of the text alone:
/// `scraper` is built with its feature `deterministic`, so that each element keeps its
/// attributes in the order of the text, and not in the order of a hash map that every process
/// seeds anew.
#[verifier::external_body]
fn parse_document(text: &str) -> (document: Html)
    ensures
        document == parsed_document(text@),
{
    Html::parse_document(text)
}

/// Parses a group of CSS selectors with `scraper::Selector::parse`; `None` where that reports
/// an error. The outcome is a function of the text alone.
#[verifier::external_body]
fn parse_selector(css: &str) -> (selector: Option<Selector>)
    ensures
        selector == parsed_selector(css@),
{
    Selector::parse(css).ok()
}

/// Lists what `scraper::Html::select` yields: the elements of the document that match the
/// selector, in the order in which it yields them.
#[verifier::external_body]
fn select_in_document<'a>(document: &'a Html, selector: &Selector) -> (found: Vec<ElementRef<'a>>)
    ensures
        found@ == document_matches(*document, *selector),
{
    document.select(selector).collect()
}

/// Lists what `scraper::ElementRef::select` yields: the elements below the given one that
/// match the selector, in the order in which it yields them.
#[verifier::external_body]
fn select_in_element<'a>(element: ElementRef<'a>, selector: &Selector) -> (found: Vec<
    ElementRef<'a>,
>)
    ensures
        found@ == element_matches(element, *selector),
{
    element.select(selector).collect()
}

/// Lists what `scraper::ElementRef::text` yields: the text nodes below the element, each as
/// a string of its own, in the order in which it yields them.
#[verifier::external_body]
fn texts_of(element: ElementRef<'_>) -> (texts: Vec<String>)
    ensures
        string_views(texts@) == element_texts(element),
{
    element.text().map(String::from).collect()
}

/// The markup inside the element, as `scraper::ElementRef::inner_html` writes it. It writes
/// the attributes of an element in the order in which the element holds them, which with the
/// feature `deterministic` of `scraper` is the order of the text that was parsed.
#[verifier::external_body]
fn inner_html_of(element: ElementRef<'_>) -> (html: String)
    ensures
        html@ == element_inner_html(element),
{
    element.inner_html()
}

/// The selector of the table of names.
pub const TABLE: &'static str = "table.gen-table-1";

/// The selector of the rows of a table.
pub const ROW: &'static str = "tr";

/// The selector of the cell of a row that holds the name.
pub const NAME_CELL: &'static str = "td.name";

/// The selector of the cell of a row that holds the reading of the name.
pub const READING_CELL: &'static str = "td.pron";

/// The address of the page, up to the word for the sex.
pub const URL_HEAD: &'static str = "https://namegen.jp/?country=japan&sex=";

/// The address of the page, after the word for the sex.
pub const URL_TAIL: &'static str =
    "&middlename=&middlename_cond=fukumu&middlename_rarity=&middlename_rarity_cond=ika&lastname=&lastname_cond=fukumu&lastname_rarity=&lastname_rarity_cond=ika&lastname_type=name&firstname=&firstname_cond=fukumu&firstname_rarity=&firstname_rarity_cond=ika&firstname_type=name";

/// The address of the page that lists names of the given sex.
pub fn source_url(sex: Sex) -> (url: String)
    ensures
        url@ == URL_HEAD@ + sex.spec_token() + URL_TAIL@,
{
    let mut url = String::from_str(URL_HEAD);
    url.append(sex.token());
    url.append(URL_TAIL);
    url
}

/// Whether an HTTP status means success: the statuses from 200 to 299 do.
pub open spec fn is_success(status: u16) -> bool {
    200 <= status < 300
}

/// The texts of a cell that are more than white space, each without the white space around it.
pub open spec fn segments(texts: Seq<Seq<char>>) -> Seq<Seq<char>>
    decreases texts.len(),
{
    if texts.len() == 0 {
        Seq::<Seq<char>>::empty()
    } else {
        let before = segments(texts.drop_last());
        let text = trimmed(texts.last());
        if text.len() > 0 {
            before.push(text)
        } else {
            before
        }
    }
}

/// The name that a row holds. The cell for the name must hold two texts, the family name and
/// then the given name; the cell for the reading must hold their readings in this order, with
/// one space between them and none elsewhere.
pub open spec fn name_of_cells(cells: RowCellsView) -> Result<NameView, SourceError> {
    if cells.name_texts is None {
        Err(SourceError::NameCellNotFound)
    } else if segments(cells.name_texts->0).len() != 2 {
        Err(SourceError::BadName)
    } else if cells.reading_html is None {
        Err(SourceError::ReadingCellNotFound)
    } else if split_on(cells.reading_html->0, ' ').len() != 2 {
        Err(SourceError::BadReading)
    } else {
        Ok(
            NameView {
                first_name: segments(cells.name_texts->0)[1],
                first_name_kana: split_on(cells.reading_html->0, ' ')[1],
                last_name: segments(cells.name_texts->0)[0],
                last_name_kana: split_on(cells.reading_html->0, ' ')[0],
            },
        )
    }
}

/// The names that rows hold, in the order of the rows; the error of the first row that holds
/// none.
pub open spec fn names_of_rows(rows: Seq<RowCellsView>) -> Result<Seq<NameView>, SourceError>
    decreases rows.len(),
{
    if rows.len() == 0 {
        Ok(Seq::<NameView>::empty())
    } else {
        match names_of_rows(rows.drop_last()) {
            Err(e) => Err(e),
            Ok(names) => match name_of_cells(rows.last()) {
                Err(e) => Err(e),
                Ok(name) => Ok(names.push(name)),
            },
        }
    }
}

/// The list of names that the rows of a table hold. A table without rows holds no list.
pub open spec fn names_of_table(rows: Seq<RowCellsView>) -> Result<Seq<NameView>, SourceError> {
    match names_of_rows(rows) {
        Err(e) => Err(e),
        Ok(names) => if names.len() == 0 {
            Err(SourceError::NoNames)
        } else {
            Ok(names)
        },
    }
}

/// The views of a list of rows.
pub open spec fn row_views(rows: Seq<RowCells>) -> Seq<RowCellsView> {
    rows.map_values(|row: RowCells| row@)
}

/// Lists the texts that are more than white space, each without the white space around it.
pub fn trimmed_segments(texts: &Vec<String>) -> (r: Vec<String>)
    ensures
        string_views(r@) == segments(string_views(texts@)),
{
    let mut out: Vec<String> = Vec::new();
    let mut i: usize = 0;
    while i < texts.len()
        invariant
            i <= texts.len(),
            string_views(out@) == segments(string_views(texts@).take(i as int)),
        decreases texts.len() - i,
    {
        let text = trim(texts[i].as_str());
        assert(string_views(texts@).take(i + 1).drop_last() == string_views(texts@).take(
            i as int,
        ));
        if !text.as_str().is_empty() {
            out.push(text);
            assert(string_views(out@) == segments(string_views(texts@).take(i as int)).push(
                text@,
            ));
        }
        i += 1;
    }
    assert(string_views(texts@).take(texts@.len() as int) == string_views(texts@));
    out
}

/// Reads the name that a row holds.
pub fn name_from_cells(cells: &RowCells) -> (r: Result<Name, SourceError>)
    ensures
        match r {
            Ok(name) => name_of_cells(cells@) == Ok::<NameView, SourceError>(name@),
            Err(e) => name_of_cells(cells@) == Err::<NameView, SourceError>(e),
        },
{
    let names = match &cells.name_texts {
        Some(texts) => trimmed_segments(texts),
        None => return Err(SourceError::NameCellNotFound),
    };
    if names.len() != 2 {
        return Err(SourceError::BadName);
    }
    let readings = match &cells.reading_html {
        Some(html) => split(html.as_str(), ' '),
        None => return Err(SourceError::ReadingCellNotFound),
    };
    if readings.len() != 2 {
        return Err(SourceError::BadReading);
    }
    Ok(
        Name {
            first_name: names[1].clone(),
            first_name_kana: readings[1].clone(),
            last_name: names[0].clone(),
            last_name_kana: readings[0].clone(),
        },
    )
}

/// Reads the list of names that the rows of a table hold. The first row that holds no name
/// fails the whole list, and so does a table without rows.
pub fn names_from_cells(rows: &Vec<RowCells>) -> (r: Result<Vec<Name>, SourceError>)
    ensures
        match r {
            Ok(names) => names_of_table(row_views(rows@)) == Ok::<Seq<NameView>, SourceError>(
                name_views(names@),
            ),
            Err(e) => names_of_table(row_views(rows@)) == Err::<Seq<NameView>, SourceError>(e),
        },
{
    let mut names: Vec<Name> = Vec::new();
    let mut i: usize = 0;
    assert(name_views(names@) == Seq::<NameView>::empty());
    while i < rows.len()
        invariant
            i <= rows.len(),
            names_of_rows(row_views(rows@).take(i as int)) == Ok::<Seq<NameView>, SourceError>(
                name_views(names@),
            ),
        decreases rows.len() - i,
    {
        assert(row_views(rows@).take(i + 1).drop_last() == row_views(rows@).take(i as int));
        match name_from_cells(&rows[i]) {
            Ok(name) => {
                names.push(name);
                assert(name_views(names@) == names_of_rows(
                    row_views(rows@).take(i as int),
                )->Ok_0.push(name@));
            },
            Err(e) => {
                proof {
                    lemma_first_bad_row_fails(row_views(rows@), i + 1);
                }
                return Err(e);
            },
        }
        i += 1;
    }
    assert(row_views(rows@).take(rows@.len() as int) == row_views(rows@));
    if names.len() == 0 {
        return Err(SourceError::NoNames);
    }
    Ok(names)
}

/// Once the rows up to some point have failed, the rows as a whole fail in the same way.
pub proof fn lemma_first_bad_row_fails(rows: Seq<RowCellsView>, upto: int)
    requires
        0 <= upto <= rows.len(),
        names_of_rows(rows.take(upto)) is Err,
    ensures
        names_of_rows(rows) == names_of_rows(rows.take(upto)),
    decreases rows.len() - upto,
{
    if upto < rows.len() {
        assert(rows.take(upto + 1).drop_last() == rows.take(upto));
        lemma_first_bad_row_fails(rows, upto + 1);
    } else {
        assert(rows.take(upto) == rows);
    }
}

/// What a row holds for a name: the texts of the first cell for the name, and the markup inside
/// the first cell for the reading.
pub open spec fn cells_of_row(
    row: ElementRef<'_>,
    name_cell: Selector,
    reading_cell: Selector,
) -> RowCellsView {
    let name_cells = element_matches(row, name_cell);
    let reading_cells = element_matches(row, reading_cell);
    RowCellsView {
        name_texts: if name_cells.len() > 0 {
            Some(element_texts(name_cells[0]))
        } else {
            None
        },
        reading_html: if reading_cells.len() > 0 {
            Some(element_inner_html(reading_cells[0]))
        } else {
            None
        },
    }
}

/// What the rows hold, one after the other.
pub open spec fn cells_of_rows(
    rows: Seq<ElementRef<'_>>,
    name_cell: Selector,
    reading_cell: Selector,
) -> Seq<RowCellsView> {
    Seq::new(rows.len(), |i: int| cells_of_row(rows[i], name_cell, reading_cell))
}

/// The rows of names of a document: the rows of its first table of names, but for the first
/// of them, which is the header.
pub open spec fn cells_of_document(document: Html) -> Result<Seq<RowCellsView>, SourceError> {
    let table = parsed_selector(TABLE@);
    let row = parsed_selector(ROW@);
    let name_cell = parsed_selector(NAME_CELL@);
    let reading_cell = parsed_selector(READING_CELL@);
    if table is None || row is None || name_cell is None || reading_cell is None {
        Err(SourceError::BadSelector)
    } else if document_matches(document, table->0).len() == 0 {
        Err(SourceError::TableNotFound)
    } else {
        let rows = element_matches(document_matches(document, table->0)[0], row->0);
        if rows.len() == 0 {
            Ok(Seq::<RowCellsView>::empty())
        } else {
            Ok(cells_of_rows(rows.skip(1), name_cell->0, reading_cell->0))
        }
    }
}

/// The list of names that a page holds.
pub open spec fn names_of_page(page: Seq<char>) -> Result<Seq<NameView>, SourceError> {
    match cells_of_document(parsed_document(page)) {
        Err(e) => Err(e),
        Ok(rows) => names_of_table(rows),
    }
}

/// The list of names that a response of the name source holds.
pub open spec fn names_of_response(status: u16, body: Seq<char>) -> Result<
    Seq<NameView>,
    SourceError,
> {
    if !is_success(status) {
        Err(SourceError::BadStatus)
    } else {
        names_of_page(body)
    }
}

/// Reads from a row what it holds for a name.
fn cells_from_row(row: ElementRef<'_>, name_cell: &Selector, reading_cell: &Selector) -> (r:
    RowCells)
    ensures
        r@ == cells_of_row(row, *name_cell, *reading_cell),
{
    let name_cells = select_in_element(row, name_cell);
    let reading_cells = select_in_element(row, reading_cell);
    RowCells {
        name_texts: if name_cells.len() > 0 {
            Some(texts_of(name_cells[0]))
        } else {
            None
        },
        reading_html: if reading_cells.len() > 0 {
            Some(inner_html_of(reading_cells[0]))
        } else {
            None
        },
    }
}

/// Finds the rows of names in a page and reads from each what it holds for a name.
pub fn cells_from_page(page: &str) -> (r: Result<Vec<RowCells>, SourceError>)
    ensures
        match r {
            Ok(rows) => cells_of_document(parsed_document(page@)) == Ok::<
                Seq<RowCellsView>,
                SourceError,
            >(row_views(rows@)),
            Err(e) => cells_of_document(parsed_document(page@)) == Err::<
                Seq<RowCellsView>,
                SourceError,
            >(e),
        },
{
    let selectors = (
        parse_selector(TABLE),
        parse_selector(ROW),
        parse_selector(NAME_CELL),
        parse_selector(READING_CELL),
    );
    let (table, row, name_cell, reading_cell) = match selectors {
        (Some(table), Some(row), Some(name_cell), Some(reading_cell)) => (
            table,
            row,
            name_cell,
            reading_cell,
        ),
        _ => return Err(SourceError::BadSelector),
    };
    let document = parse_document(page);
    let tables = select_in_document(&document, &table);
    if tables.len() == 0 {
        return Err(SourceError::TableNotFound);
    }
    let rows = select_in_element(tables[0], &row);
    let mut cells: Vec<RowCells> = Vec::new();
    let mut i: usize = 1;
    while i < rows.len()
        invariant
            1 <= i,
            rows@.len() > 0 ==> i <= rows@.len(),
            rows@.len() > 0 ==> row_views(cells@) == cells_of_rows(
                rows@.skip(1),
                name_cell,
                reading_cell,
            ).take(i - 1),
            rows@.len() == 0 ==> cells@.len() == 0,
        decreases rows.len() - i,
    {
        let row_cells = cells_from_row(rows[i], &name_cell, &reading_cell);
        cells.push(row_cells);
        assert(row_views(cells@) == cells_of_rows(rows@.skip(1), name_cell, reading_cell).take(
            i as int,
        ));
        i += 1;
    }
    proof {
        if rows@.len() > 0 {
            let all = cells_of_rows(rows@.skip(1), name_cell, reading_cell);
            assert(all.take(all.len() as int) == all);
        } else {
            assert(row_views(cells@) == Seq::<RowCellsView>::empty());
        }
    }
    Ok(cells)
}

/// Reads the list of names that a page holds.
pub fn names_from_page(page: &str) -> (r: Result<Vec<Name>, SourceError>)
    ensures
        match r {
            Ok(names) => names_of_page(page@) == Ok::<Seq<NameView>, SourceError>(
                name_views(names@),
            ),
            Err(e) => names_of_page(page@) == Err::<Seq<NameView>, SourceError>(e),
        },
{
    match cells_from_page(page) {
        Ok(rows) => names_from_cells(&rows),
        Err(e) => Err(e),
    }
}

/// Reads the list of names that a response of the name source holds: none, unless the status
/// means success.
pub fn names_from_response(status: u16, body: &str) -> (r: Result<Vec<Name>, SourceError>)
    ensures
        match r {
            Ok(names) => names_of_response(status, body@) == Ok::<Seq<NameView>, SourceError>(
                name_views(names@),
            ),
            Err(e) => names_of_response(status, body@) == Err::<Seq<NameView>, SourceError>(e),
        },
{
    if status < 200 || status >= 300 {
        return Err(SourceError::BadStatus);
    }
    names_from_page(body)
}

/// A list of names that was read is never empty, and holds one name for each row.
pub proof fn lemma_list_is_never_empty(rows: Seq<RowCellsView>)
    requires
        names_of_table(rows) is Ok,
    ensures
        names_of_table(rows)->Ok_0.len() == rows.len(),
        rows.len() > 0,
{
    lemma_one_name_for_each_row(rows);
}

/// Rows that all hold a name give as many names as there are rows, in the order of the rows.
pub proof fn lemma_one_name_for_each_row(rows: Seq<RowCellsView>)
    requires
        names_of_rows(rows) is Ok,
    ensures
        names_of_rows(rows)->Ok_0.len() == rows.len(),
        forall|i: int|
            0 <= i < rows.len() ==> name_of_cells(rows[i]) == Ok::<NameView, SourceError>(
                #[trigger] names_of_rows(rows)->Ok_0[i],
            ),
    decreases rows.len(),
{
    if rows.len() > 0 {
        lemma_one_name_for_each_row(rows.drop_last());
    }
}

/// Each of the texts that are kept of a cell holds something, and has no white space around
/// it.
pub proof fn lemma_segments_are_trimmed(texts: Seq<Seq<char>>)
    ensures
        forall|i: int|
            0 <= i < segments(texts).len() ==> (#[trigger] segments(texts)[i]).len() > 0
                && trimmed(segments(texts)[i]) == segments(texts)[i],
    decreases texts.len(),
{
    if texts.len() > 0 {
        lemma_segments_are_trimmed(texts.drop_last());
        lemma_trimmed_is_trim(texts.last());
        let before = segments(texts.drop_last());
        assert forall|i: int| 0 <= i < segments(texts).len() implies (#[trigger] segments(
            texts,
        )[i]).len() > 0 && trimmed(segments(texts)[i]) == segments(texts)[i] by {
            if i < before.len() {
                assert(segments(texts)[i] == before[i]);
            } else {
                assert(segments(texts)[i] == trimmed(texts.last()));
            }
        }
    }
}

/// A name that was read from a row has a family name and a given name that hold something and
/// have no white space around them, and readings without a space in them.
pub proof fn lemma_name_of_row_is_clean(cells: RowCellsView)
    requires
        name_of_cells(cells) is Ok,
    ensures
        ({
            let name = name_of_cells(cells)->Ok_0;
            &&& name.last_name.len() > 0 && trimmed(name.last_name) == name.last_name
            &&& name.first_name.len() > 0 && trimmed(name.first_name) == name.first_name
            &&& !name.last_name_kana.contains(' ')
            &&& !name.first_name_kana.contains(' ')
        }),
{
    lemma_segments_are_trimmed(cells.name_texts->0);
    lemma_pieces_hold_no_separator(cells.reading_html->0, ' ');
    let pieces = split_on(cells.reading_html->0, ' ');
    assert(forall|j: int| 0 <= j < pieces[0].len() ==> pieces[0][j] != ' ');
    assert(forall|j: int| 0 <= j < pieces[1].len() ==> pieces[1][j] != ' ');
}

impl SourceError {
    /// The error in words.
    pub fn message(&self) -> (r: String)
        ensures
            r@ == match self {
                SourceError::Unreachable => "the name source gave no response"@,
                SourceError::BadStatus => "the response does not report success"@,
                SourceError::BadSelector => "a selector is not valid"@,
                SourceError::TableNotFound => "table.gen-table-1 not found"@,
                SourceError::NameCellNotFound => "td.name not found"@,
                SourceError::BadName => "sei_mei.len() != 2"@,
                SourceError::ReadingCellNotFound => "td.pron not found"@,
                SourceError::BadReading => "sei_mei_kana.len() != 2"@,
                SourceError::NoNames => "the table holds no names"@,
            },
    {
        match self {
            SourceError::Unreachable => "the name source gave no response".to_owned(),
            SourceError::BadStatus => "the response does not report success".to_owned(),
            SourceError::BadSelector => "a selector is not valid".to_owned(),
            SourceError::TableNotFound => "table.gen-table-1 not found".to_owned(),
            SourceError::NameCellNotFound => "td.name not found".to_owned(),
            SourceError::BadName => "sei_mei.len() != 2".to_owned(),
            SourceError::ReadingCellNotFound => "td.pron not found".to_owned(),
            SourceError::BadReading => "sei_mei_kana.len() != 2".to_owned(),
            SourceError::NoNames => "the table holds no names".to_owned(),
        }
    }
}

} // verus!
