//! Reading the entries of an event out of the table on its page.
//!
//! The page is parsed by the `scraper` crate, which hands out the cells of
//! each row as plain text and markup. Which column holds what is found out
//! from the header row; each further row becomes an entry.

use vstd::prelude::*;
use vstd::utf8::encode_utf8;
use crate::entry::{lemma_filter_step, BmsEntry, EntryView};
use crate::pattern::{
    first_span, match_spans, pieces_from, regex_first_span, regex_replaced,
    regex_spans, replace_all, slice_text, split_by_spans, substring, texts_of, PatternError,
};
use crate::text::{
    chars_of, contains, has_prefix, index_of, number_up_to, occurs, parse_up_to, push_str,
    replace, replaced, same, split, split_on, string_of, trim, trimmed,
};

verus! {

/// One cell of a table row: the text in it, and its markup.
#[derive(Debug, Clone)]
pub struct Cell {
    pub text: String,
    pub inner_html: String,
}

/// A cell with its text and markup held as sequences of characters.
pub struct CellView {
    pub text: Seq<char>,
    pub inner_html: Seq<char>,
}

impl View for Cell {
    type V = CellView;

    open spec fn view(&self) -> CellView {
        CellView { text: self.text@, inner_html: self.inner_html@ }
    }
}

/// The views of the cells of a row.
pub open spec fn row_view(row: Seq<Cell>) -> Seq<CellView> {
    Seq::new(row.len(), |i: int| row[i]@)
}

/// The views of the rows of a table.
pub open spec fn rows_view(rows: Seq<Vec<Cell>>) -> Seq<Seq<CellView>> {
    Seq::new(rows.len(), |r: int| row_view(rows[r]@))
}

/// The columns of the table.
#[derive(Debug, Clone, Copy, PartialEq, Eq, Structural)]
pub enum Column {
    No,
    Name,
    Team,
    Title,
    Size,
    Addr,
}

/// For each column the index of the cell that holds it, if any does.
#[derive(Debug, Clone, Copy)]
pub struct ColumnMapping {
    pub no: Option<usize>,
    pub name: Option<usize>,
    pub team: Option<usize>,
    pub title: Option<usize>,
    pub size: Option<usize>,
    pub addr: Option<usize>,
}

impl ColumnMapping {
    /// The index of the cell that holds `column`.
    pub open spec fn index(self, column: Column) -> Option<int> {
        let found = match column {
            Column::No => self.no,
            Column::Name => self.name,
            Column::Team => self.team,
            Column::Title => self.title,
            Column::Size => self.size,
            Column::Addr => self.addr,
        };
        match found {
            Some(i) => Some(i as int),
            None => None,
        }
    }
}

/// The lower-case form of a text, as `str::to_lowercase` gives it.
pub uninterp spec fn lowercased(text: Seq<char>) -> Seq<char>;

/// `str::to_lowercase`: the lower-case form of `text`. The contract claims
/// only that the result is the text named `lowercased`.
#[verifier::external_body]
fn to_lowercase(text: &str) -> (lower: String)
    ensures
        lower@ == lowercased(text@),
{
    text.to_lowercase()
}

/// The column that a header text names: the first of `no`, `name`, `team`,
/// `title`, `size` and `addr` that occurs in it.
pub open spec fn column_named(text: Seq<char>) -> Option<Column> {
    if occurs(text, "no"@) {
        Some(Column::No)
    } else if occurs(text, "name"@) {
        Some(Column::Name)
    } else if occurs(text, "team"@) {
        Some(Column::Team)
    } else if occurs(text, "title"@) {
        Some(Column::Title)
    } else if occurs(text, "size"@) {
        Some(Column::Size)
    } else if occurs(text, "addr"@) {
        Some(Column::Addr)
    } else {
        None
    }
}

/// The index of the last of `texts` that names `column`.
pub open spec fn last_named(texts: Seq<Seq<char>>, column: Column) -> Option<int>
    decreases texts.len(),
{
    if texts.len() == 0 {
        None
    } else if column_named(texts.last()) == Some(column) {
        Some(texts.len() - 1)
    } else {
        last_named(texts.drop_last(), column)
    }
}

/// Where `column` is looked for in a row of `count` cells whose header does
/// not name it. The number and the name come first. Rows of five cells go on
/// with title, size and address, rows of six with team, title, size and
/// address. In any other row the address is last, with size, title and team
/// before it, as far as there are cells.
pub open spec fn default_index(count: int, column: Column) -> Option<int> {
    match column {
        Column::No => if count > 0 {
            Some(0)
        } else {
            None
        },
        Column::Name => if count > 1 {
            Some(1)
        } else {
            None
        },
        Column::Team => if count == 6 {
            Some(2)
        } else if count != 5 && count > 3 {
            Some(count - 4)
        } else {
            None
        },
        Column::Title => if count == 5 {
            Some(2)
        } else if count == 6 {
            Some(3)
        } else if count > 2 {
            Some(count - 3)
        } else {
            None
        },
        Column::Size => if count == 5 {
            Some(3)
        } else if count == 6 {
            Some(4)
        } else if count > 1 {
            Some(count - 2)
        } else {
            None
        },
        Column::Addr => if count == 5 {
            Some(4)
        } else if count == 6 {
            Some(5)
        } else if count > 0 {
            Some(count - 1)
        } else {
            None
        },
    }
}

/// Where `column` stands according to a header row with the given texts: in
/// the last cell that names it, else where it is looked for by default.
pub open spec fn header_index(texts: Seq<Seq<char>>, column: Column) -> Option<int> {
    match last_named(texts, column) {
        Some(i) => Some(i),
        None => default_index(texts.len() as int, column),
    }
}

/// Whether one of the texts names a column.
pub open spec fn names_a_column(texts: Seq<Seq<char>>) -> bool {
    exists|i: int| 0 <= i < texts.len() && column_named(#[trigger] texts[i]) is Some
}

/// The texts of the cells of a row as a header holds them: without the white
/// space round them and in lower case.
pub open spec fn header_texts(row: Seq<CellView>) -> Seq<Seq<char>> {
    Seq::new(row.len(), |i: int| lowercased(trimmed(row[i].text)))
}

/// Where `column` stands in a table with the given rows: where the first row
/// that names a column says, or in the table's six columns in their usual
/// order where no row names one.
pub open spec fn detected_index(rows: Seq<Seq<CellView>>, column: Column) -> Option<int>
    decreases rows.len(),
{
    if rows.len() == 0 {
        default_index(6, column)
    } else if names_a_column(header_texts(rows[0])) {
        header_index(header_texts(rows[0]), column)
    } else {
        detected_index(rows.skip(1), column)
    }
}

/// The column that a header text names.
pub fn name_column(text: &str) -> (r: Option<Column>)
    ensures
        r == column_named(text@),
{
    let chars = chars_of(text);
    if contains(chars.as_slice(), "no") {
        Some(Column::No)
    } else if contains(chars.as_slice(), "name") {
        Some(Column::Name)
    } else if contains(chars.as_slice(), "team") {
        Some(Column::Team)
    } else if contains(chars.as_slice(), "title") {
        Some(Column::Title)
    } else if contains(chars.as_slice(), "size") {
        Some(Column::Size)
    } else if contains(chars.as_slice(), "addr") {
        Some(Column::Addr)
    } else {
        None
    }
}

/// `found`, or `default` where nothing was found.
fn or_default(found: Option<usize>, default: Option<usize>) -> (r: Option<usize>)
    ensures
        r == match found {
            Some(i) => Some(i),
            None => default,
        },
{
    match found {
        Some(i) => Some(i),
        None => default,
    }
}

/// Reads the mapping of columns off a header row, given the texts of its
/// cells.
pub fn map_header(texts: &Vec<String>) -> (mapping: ColumnMapping)
    ensures
        forall|column: Column|
            #[trigger] mapping.index(column) == header_index(texts_of(texts@), column),
{
    let ghost all = texts_of(texts@);
    let mut no: Option<usize> = None;
    let mut name: Option<usize> = None;
    let mut team: Option<usize> = None;
    let mut title: Option<usize> = None;
    let mut size: Option<usize> = None;
    let mut addr: Option<usize> = None;
    let mut i: usize = 0;
    while i < texts.len()
        invariant
            i <= texts.len(),
            all == texts_of(texts@),
            index_of(no) == last_named(all.take(i as int), Column::No),
            index_of(name) == last_named(all.take(i as int), Column::Name),
            index_of(team) == last_named(all.take(i as int), Column::Team),
            index_of(title) == last_named(all.take(i as int), Column::Title),
            index_of(size) == last_named(all.take(i as int), Column::Size),
            index_of(addr) == last_named(all.take(i as int), Column::Addr),
        decreases texts.len() - i,
    {
        assert(all.take(i + 1).drop_last() =~= all.take(i as int));
        match name_column(texts[i].as_str()) {
            Some(Column::No) => {
                no = Some(i);
            },
            Some(Column::Name) => {
                name = Some(i);
            },
            Some(Column::Team) => {
                team = Some(i);
            },
            Some(Column::Title) => {
                title = Some(i);
            },
            Some(Column::Size) => {
                size = Some(i);
            },
            Some(Column::Addr) => {
                addr = Some(i);
            },
            None => {},
        }
        i += 1;
    }
    assert(all.take(i as int) =~= all);
    let count = texts.len();
    ColumnMapping {
        no: or_default(
            no,
            if count > 0 {
                Some(0)
            } else {
                None
            },
        ),
        name: or_default(
            name,
            if count > 1 {
                Some(1)
            } else {
                None
            },
        ),
        team: or_default(
            team,
            if count == 6 {
                Some(2)
            } else if count != 5 && count > 3 {
                Some(count - 4)
            } else {
                None
            },
        ),
        title: or_default(
            title,
            if count == 5 {
                Some(2)
            } else if count == 6 {
                Some(3)
            } else if count > 2 {
                Some(count - 3)
            } else {
                None
            },
        ),
        size: or_default(
            size,
            if count == 5 {
                Some(3)
            } else if count == 6 {
                Some(4)
            } else if count > 1 {
                Some(count - 2)
            } else {
                None
            },
        ),
        addr: or_default(
            addr,
            if count == 5 {
                Some(4)
            } else if count == 6 {
                Some(5)
            } else if count > 0 {
                Some(count - 1)
            } else {
                None
            },
        ),
    }
}

/// The mapping used for a table without a header row: the six columns in
/// their usual order.
pub fn default_mapping() -> (mapping: ColumnMapping)
    ensures
        forall|column: Column| #[trigger] mapping.index(column) == default_index(6, column),
{
    ColumnMapping {
        no: Some(0),
        name: Some(1),
        team: Some(2),
        title: Some(3),
        size: Some(4),
        addr: Some(5),
    }
}

/// The text of a cell as a header holds it.
fn header_text(cell: &Cell) -> (text: String)
    ensures
        text@ == lowercased(trimmed(cell.text@)),
{
    let chars = chars_of(cell.text.as_str());
    let kept = string_of(trim(chars.as_slice()));
    to_lowercase(kept.as_str())
}

/// Finds out which column holds what, from the rows of the table, header
/// cells included.
pub fn detect_column_mapping(rows: &Vec<Vec<Cell>>) -> (mapping: ColumnMapping)
    ensures
        forall|column: Column|
            #[trigger] mapping.index(column) == detected_index(rows_view(rows@), column),
{
    let ghost all = rows_view(rows@);
    let mut r: usize = 0;
    assert(all.skip(0) =~= all);
    while r < rows.len()
        invariant
            r <= rows.len(),
            all == rows_view(rows@),
            forall|column: Column|
                detected_index(all.skip(r as int), column) == #[trigger] detected_index(
                    all,
                    column,
                ),
        decreases rows.len() - r,
    {
        let row = &rows[r];
        let mut texts: Vec<String> = Vec::new();
        let mut i: usize = 0;
        while i < row.len()
            invariant
                i <= row.len(),
                texts@.len() == i,
                forall|j: int|
                    0 <= j < i ==> #[trigger] texts@[j]@ == lowercased(trimmed(row@[j].text@)),
            decreases row.len() - i,
        {
            texts.push(header_text(&row[i]));
            i += 1;
        }
        assert(texts_of(texts@) =~= header_texts(row_view(row@)));
        assert(all.skip(r as int).skip(1) =~= all.skip(r + 1));
        let mapping = map_header(&texts);
        if is_header_row(&texts) {
            return mapping;
        }
        r += 1;
    }
    default_mapping()
}

/// Whether one of the texts names a column.
pub fn is_header_row(texts: &Vec<String>) -> (b: bool)
    ensures
        b == names_a_column(texts_of(texts@)),
{
    let mut i: usize = 0;
    while i < texts.len()
        invariant
            i <= texts.len(),
            forall|j: int| 0 <= j < i ==> !(column_named(#[trigger] texts_of(texts@)[j]) is Some),
        decreases texts.len() - i,
    {
        if name_column(texts[i].as_str()).is_some() {
            assert(column_named(texts_of(texts@)[i as int]) is Some);
            return true;
        }
        i += 1;
    }
    false
}

/// The cells of a page: for each element that `rows` selects, its descendants
/// that `cells` selects, each as its text and its inner markup. `None` where
/// a selector is refused.
pub uninterp spec fn selected_cells(html: Seq<char>, rows: Seq<char>, cells: Seq<char>) -> Option<
    Seq<Seq<CellView>>,
>;

/// `scraper::Html::parse_document`, `Selector::parse` and the two `select`
/// methods: parses the page and, within each element that `rows` selects,
/// selects by `cells`; of each cell found it keeps the joined text nodes and
/// the inner markup. The contract claims only that the outcome is the one
/// named `selected_cells`.
#[verifier::external_body]
fn select_cells(html: &str, rows: &str, cells: &str) -> (r: Option<Vec<Vec<Cell>>>)
    ensures
        match r {
            Some(found) => selected_cells(html@, rows@, cells@) == Some(rows_view(found@)),
            None => selected_cells(html@, rows@, cells@) is None,
        },
{
    let document = scraper::Html::parse_document(html);
    let rows = scraper::Selector::parse(rows).ok()?;
    let cells = scraper::Selector::parse(cells).ok()?;
    Some(document.select(&rows).map(|row| row.select(&cells).map(|cell| Cell {
        text: cell.text().collect::<Vec<_>>().join(""),
        inner_html: cell.inner_html(),
    }).collect()).collect())
}

/// Why a table could not be read.
#[derive(Debug, Clone, Copy, PartialEq, Eq, Structural)]
pub enum TableError {
    /// A selector was refused.
    Selector,
    /// A pattern was refused.
    Pattern,
}

/// The pattern of a tag.
pub open spec fn tag_pattern() -> Seq<char> {
    "<[^>]*>"@
}

/// The pattern of a web address.
pub open spec fn url_pattern() -> Seq<char> {
    "https?://[a-zA-Z0-9\\-._~:/?#=&%]+"@
}

/// The pattern of a number.
pub open spec fn number_pattern() -> Seq<char> {
    "\\d+"@
}

/// `html` with the six character references `&lt;`, `&gt;`, `&amp;`,
/// `&quot;`, `&#39;` and `&nbsp;` resolved, one after the other in this
/// order.
pub open spec fn entities_resolved(html: Seq<char>) -> Seq<char> {
    replaced(
        replaced(
            replaced(
                replaced(replaced(replaced(html, "&lt;"@, "<"@), "&gt;"@, ">"@), "&amp;"@, "&"@),
                "&quot;"@,
                "\""@,
            ),
            "&#39;"@,
            "'"@,
        ),
        "&nbsp;"@,
        " "@,
    )
}

/// The text of a piece of markup: its character references resolved, its tags
/// taken out, the white space round it dropped. `None` where the pattern of a
/// tag is refused.
pub open spec fn cleaned_content(html: Seq<char>) -> Option<Seq<char>> {
    match regex_replaced(tag_pattern(), entities_resolved(html), ""@) {
        Some(text) => Some(trimmed(text)),
        None => None,
    }
}

/// The text of a piece of markup.
pub fn clean_html_content(html_content: &str) -> (r: Result<String, PatternError>)
    ensures
        match r {
            Ok(text) => cleaned_content(html_content@) == Some(text@),
            Err(_) => cleaned_content(html_content@) is None,
        },
{
    let html = chars_of(html_content);
    let step = replace(html.as_slice(), "&lt;", "<");
    let step = replace(step.as_slice(), "&gt;", ">");
    let step = replace(step.as_slice(), "&amp;", "&");
    let step = replace(step.as_slice(), "&quot;", "\"");
    let step = replace(step.as_slice(), "&#39;", "'");
    let step = replace(step.as_slice(), "&nbsp;", " ");
    let resolved = string_of(step.as_slice());
    match replace_all("<[^>]*>", resolved.as_str(), "") {
        Ok(text) => {
            let chars = chars_of(text.as_str());
            Ok(string_of(trim(chars.as_slice())))
        },
        Err(e) => Err(e),
    }
}

/// The web addresses in a piece of markup and the text between them, in
/// order. `None` where a pattern is refused.
pub open spec fn urls_and_text(input: Seq<char>) -> Option<Seq<Seq<char>>> {
    match cleaned_content(input) {
        Some(cleaned) => match regex_spans(url_pattern(), cleaned) {
            Some(spans) => Some(pieces_from(encode_utf8(cleaned), spans, 0)),
            None => None,
        },
        None => None,
    }
}

/// The web addresses in a piece of markup and the text between them.
pub fn extract_urls_and_text(input: &str) -> (r: Result<Vec<String>, PatternError>)
    ensures
        match r {
            Ok(pieces) => urls_and_text(input@) == Some(texts_of(pieces@)),
            Err(_) => urls_and_text(input@) is None,
        },
{
    match clean_html_content(input) {
        Ok(cleaned) => match match_spans(
            "https?://[a-zA-Z0-9\\-._~:/?#=&%]+",
            cleaned.as_str(),
        ) {
            Ok(spans) => Ok(split_by_spans(cleaned.as_str(), &spans)),
            Err(e) => Err(e),
        },
        Err(e) => Err(e),
    }
}

/// The texts among `pieces` that are more than white space.
pub open spec fn without_blanks(pieces: Seq<Seq<char>>) -> Seq<Seq<char>>
    decreases pieces.len(),
{
    if pieces.len() == 0 {
        pieces
    } else if trimmed(pieces.last()).len() > 0 {
        without_blanks(pieces.drop_last()).push(pieces.last())
    } else {
        without_blanks(pieces.drop_last())
    }
}

/// The address lines of the given parts of a cell, one part after the other.
/// `None` where a pattern is refused.
pub open spec fn lines_of_parts(parts: Seq<Seq<char>>) -> Option<Seq<Seq<char>>>
    decreases parts.len(),
{
    if parts.len() == 0 {
        Some(Seq::empty())
    } else {
        match lines_of_parts(parts.drop_last()) {
            Some(lines) => match urls_and_text(parts.last()) {
                Some(pieces) => Some(lines + without_blanks(pieces)),
                None => None,
            },
            None => None,
        }
    }
}

/// The address lines of a cell: its markup is cut at each `<br>`, and each
/// part gives its web addresses and the text between them.
pub open spec fn address_lines(html: Seq<char>) -> Option<Seq<Seq<char>>> {
    lines_of_parts(split_on(html, "<br>"@))
}

/// The address lines of a cell.
pub fn extract_address_lines(addr_html: &str) -> (r: Result<Vec<String>, PatternError>)
    ensures
        match r {
            Ok(lines) => address_lines(addr_html@) == Some(texts_of(lines@)),
            Err(_) => address_lines(addr_html@) is None,
        },
{
    let html = chars_of(addr_html);
    let parts = split(html.as_slice(), "<br>");
    let ghost all = split_on(addr_html@, "<br>"@);
    let mut lines: Vec<String> = Vec::new();
    let mut i: usize = 0;
    while i < parts.len()
        invariant
            i <= parts.len(),
            all == split_on(addr_html@, "<br>"@),
            parts@.map_values(|p: &[char]| p@) == all,
            lines_of_parts(all.take(i as int)) == Some(texts_of(lines@)),
        decreases parts.len() - i,
    {
        assert(all.take(i + 1).drop_last() =~= all.take(i as int));
        let part = string_of(parts[i]);
        match extract_urls_and_text(part.as_str()) {
            Ok(pieces) => {
                let ghost before = texts_of(lines@);
                let mut k: usize = 0;
                while k < pieces.len()
                    invariant
                        k <= pieces.len(),
                        texts_of(lines@) == before + without_blanks(
                            texts_of(pieces@).take(k as int),
                        ),
                    decreases pieces.len() - k,
                {
                    assert(texts_of(pieces@).take(k + 1).drop_last() =~= texts_of(pieces@).take(
                        k as int,
                    ));
                    let ghost so_far = texts_of(lines@);
                    let chars = chars_of(pieces[k].as_str());
                    if trim(chars.as_slice()).len() > 0 {
                        lines.push(string_of(chars.as_slice()));
                        assert(texts_of(lines@) =~= so_far.push(pieces@[k as int]@));
                    }
                    k += 1;
                }
                assert(texts_of(pieces@).take(k as int) =~= texts_of(pieces@));
            },
            Err(e) => {
                proof {
                    lemma_lines_fail(all, i as int);
                }
                return Err(e);
            },
        }
        i += 1;
    }
    assert(all.take(i as int) =~= all);
    Ok(lines)
}

/// Where a part has no lines, the parts together have none.
proof fn lemma_lines_fail(parts: Seq<Seq<char>>, i: int)
    requires
        0 <= i < parts.len(),
        urls_and_text(parts[i]) is None,
    ensures
        lines_of_parts(parts) is None,
    decreases parts.len(),
{
    if i < parts.len() - 1 {
        lemma_lines_fail(parts.drop_last(), i);
    }
}

/// The cell of a row that stands at `column`, if the row has one there.
pub open spec fn cell_in(row: Seq<CellView>, column: Option<usize>) -> Option<CellView> {
    match column {
        Some(i) => if i < row.len() {
            Some(row[i as int])
        } else {
            None
        },
        None => None,
    }
}

/// The text at `column` of a row, without the white space round it; empty
/// where the row has no such cell.
pub open spec fn text_in(row: Seq<CellView>, column: Option<usize>) -> Seq<char> {
    match cell_in(row, column) {
        Some(cell) => trimmed(cell.text),
        None => Seq::empty(),
    }
}

/// The markup at `column` of a row; empty where the row has no such cell.
pub open spec fn markup_in(row: Seq<CellView>, column: Option<usize>) -> Seq<char> {
    match cell_in(row, column) {
        Some(cell) => cell.inner_html,
        None => Seq::empty(),
    }
}

/// A row that is no entry: one without cells, without a number or without a
/// name, and the header row, whose number reads `no`.
pub open spec fn is_skipped(mapping: ColumnMapping, row: Seq<CellView>) -> bool {
    ||| row.len() == 0
    ||| text_in(row, mapping.no).len() == 0
    ||| lowercased(text_in(row, mapping.no)) == "no"@
    ||| text_in(row, mapping.name).len() == 0
}

/// The number of the work in a row: the text of its number cell where that is
/// a number, else the first number in the markup of that cell, else the text
/// as it is. `None` where the pattern of a number is refused.
pub open spec fn work_number(mapping: ColumnMapping, row: Seq<CellView>) -> Option<Seq<char>> {
    let text = text_in(row, mapping.no);
    if number_up_to(text, u32::MAX as int) is Some {
        Some(text)
    } else {
        match cell_in(row, mapping.no) {
            Some(cell) => match regex_first_span(number_pattern(), cell.inner_html) {
                Some(Some(span)) => Some(
                    slice_text(encode_utf8(cell.inner_html), span.0, span.1),
                ),
                Some(None) => Some(text),
                None => None,
            },
            None => Some(text),
        }
    }
}

/// The text by which two rows are told to be the same work.
pub open spec fn key_of(no: Seq<char>, name: Seq<char>, title: Seq<char>) -> Seq<char> {
    no + "|"@ + name + "|"@ + title
}

/// The key of an entry.
pub open spec fn entry_key(entry: EntryView) -> Seq<char> {
    key_of(entry.no, entry.name, entry.title)
}

/// Whether one of the entries has the key `key`.
pub open spec fn has_key(entries: Seq<EntryView>, key: Seq<char>) -> bool {
    exists|i: int| 0 <= i < entries.len() && entry_key(#[trigger] entries[i]) == key
}

/// The team in a row: nothing where the text of its cell is empty.
pub open spec fn team_in(mapping: ColumnMapping, row: Seq<CellView>) -> Option<Seq<char>> {
    if text_in(row, mapping.team).len() > 0 {
        Some(text_in(row, mapping.team))
    } else {
        None
    }
}

/// What reading one more row makes of the entries read so far. A row that is
/// skipped, and one whose work is among the entries already, leaves them as
/// they are. `None` where a pattern is refused.
pub open spec fn with_row(
    mapping: ColumnMapping,
    entries: Seq<EntryView>,
    row: Seq<CellView>,
) -> Option<
    Seq<EntryView>,
> {
    if is_skipped(mapping, row) {
        Some(entries)
    } else {
        match work_number(mapping, row) {
            Some(no) => if has_key(
                entries,
                key_of(no, text_in(row, mapping.name), text_in(row, mapping.title)),
            ) {
                Some(entries)
            } else {
                match address_lines(markup_in(row, mapping.addr)) {
                    Some(addr) => Some(
                        entries.push(
                            EntryView {
                                no,
                                name: text_in(row, mapping.name),
                                team: team_in(mapping, row),
                                title: text_in(row, mapping.title),
                                size: text_in(row, mapping.size),
                                addr,
                            },
                        ),
                    ),
                    None => None,
                }
            },
            None => None,
        }
    }
}

/// The entries of the given rows, in order, each work once.
pub open spec fn entries_of(mapping: ColumnMapping, rows: Seq<Seq<CellView>>) -> Option<
    Seq<EntryView>,
>
    decreases rows.len(),
{
    if rows.len() == 0 {
        Some(Seq::empty())
    } else {
        match entries_of(mapping, rows.drop_last()) {
            Some(entries) => with_row(mapping, entries, rows.last()),
            None => None,
        }
    }
}

/// No two of the entries are the same work.
pub open spec fn each_work_once(entries: Seq<EntryView>) -> bool {
    forall|i: int, j: int|
        0 <= i < j < entries.len() ==> entry_key(#[trigger] entries[i]) != entry_key(
            #[trigger] entries[j],
        )
}

/// Whatever the rows hold, no work is read twice: the entries of a table
/// differ in their keys.
pub proof fn lemma_each_work_once(mapping: ColumnMapping, rows: Seq<Seq<CellView>>)
    ensures
        entries_of(mapping, rows) matches Some(entries) ==> each_work_once(entries),
    decreases rows.len(),
{
    if rows.len() > 0 {
        lemma_each_work_once(mapping, rows.drop_last());
        if let Some(before) = entries_of(mapping, rows.drop_last()) {
            if let Some(entries) = with_row(mapping, before, rows.last()) {
                assert forall|i: int, j: int| 0 <= i < j < entries.len() implies entry_key(
                    #[trigger] entries[i],
                ) != entry_key(#[trigger] entries[j]) by {
                    if j < before.len() {
                        assert(entries[i] == before[i] && entries[j] == before[j]);
                    } else {
                        assert(entries[i] == before[i]);
                        assert(!has_key(before, entry_key(entries[j])));
                    }
                }
            }
        }
    }
}

/// The views of a vector of entries.
pub open spec fn entry_views(entries: Seq<BmsEntry>) -> Seq<EntryView> {
    Seq::new(entries.len(), |i: int| entries[i]@)
}

/// The text at `column` of a row.
pub fn cell_text(row: &Vec<Cell>, column: Option<usize>) -> (text: String)
    ensures
        text@ == text_in(row_view(row@), column),
{
    match column {
        Some(i) => if i < row.len() {
            let chars = chars_of(row[i].text.as_str());
            string_of(trim(chars.as_slice()))
        } else {
            String::new()
        },
        None => String::new(),
    }
}

/// The markup at `column` of a row.
pub fn cell_markup(row: &Vec<Cell>, column: Option<usize>) -> (markup: String)
    ensures
        markup@ == markup_in(row_view(row@), column),
{
    match column {
        Some(i) => if i < row.len() {
            row[i].inner_html.clone()
        } else {
            String::new()
        },
        None => String::new(),
    }
}

/// Whether a row is no entry.
pub fn skips(mapping: &ColumnMapping, row: &Vec<Cell>) -> (b: bool)
    ensures
        b == is_skipped(*mapping, row_view(row@)),
{
    if row.len() == 0 {
        return true;
    }
    let no = cell_text(row, mapping.no);
    if chars_of(no.as_str()).len() == 0 {
        return true;
    }
    let lower = chars_of(to_lowercase(no.as_str()).as_str());
    if same(lower.as_slice(), chars_of("no").as_slice()) {
        return true;
    }
    chars_of(cell_text(row, mapping.name).as_str()).len() == 0
}

/// The number of the work in a row.
pub fn number_of(mapping: &ColumnMapping, row: &Vec<Cell>) -> (r: Result<String, PatternError>)
    ensures
        match r {
            Ok(no) => work_number(*mapping, row_view(row@)) == Some(no@),
            Err(_) => work_number(*mapping, row_view(row@)) is None,
        },
{
    let text = cell_text(row, mapping.no);
    let limit: usize = 0xFFFF_FFFF;
    if parse_up_to(chars_of(text.as_str()).as_slice(), limit).is_some() {
        return Ok(text);
    }
    let found = match mapping.no {
        Some(i) => i < row.len(),
        None => false,
    };
    if !found {
        return Ok(text);
    }
    let markup = cell_markup(row, mapping.no);
    match first_span("\\d+", markup.as_str()) {
        Ok(Some((start, end))) => Ok(
            string_of(chars_of(substring(markup.as_str(), start, end)).as_slice()),
        ),
        Ok(None) => Ok(text),
        Err(e) => Err(e),
    }
}

/// Whether one of `keys` is `key`. The keys of the entries read so far are
/// kept in a vector, in the order of the entries.
fn knows(keys: &Vec<String>, key: &str) -> (b: bool)
    ensures
        b == (exists|i: int| 0 <= i < keys@.len() && (#[trigger] keys@[i])@ == key@),
{
    let wanted = chars_of(key);
    let mut i: usize = 0;
    while i < keys.len()
        invariant
            i <= keys.len(),
            wanted@ == key@,
            forall|j: int| 0 <= j < i ==> (#[trigger] keys@[j])@ != key@,
        decreases keys.len() - i,
    {
        if same(chars_of(keys[i].as_str()).as_slice(), wanted.as_slice()) {
            return true;
        }
        i += 1;
    }
    false
}

/// Reads the entries out of the rows of a table, header cells left out. A
/// work that stands in several rows is read from the first of them.
pub fn parse_rows(mapping: &ColumnMapping, rows: &Vec<Vec<Cell>>) -> (r: Result<
    Vec<BmsEntry>,
    PatternError,
>)
    ensures
        match r {
            Ok(entries) => entries_of(*mapping, rows_view(rows@)) == Some(entry_views(entries@)),
            Err(_) => entries_of(*mapping, rows_view(rows@)) is None,
        },
        r matches Ok(entries) ==> each_work_once(entry_views(entries@)),
{
    proof {
        lemma_each_work_once(*mapping, rows_view(rows@));
    }
    let mut entries: Vec<BmsEntry> = Vec::new();
    let mut keys: Vec<String> = Vec::new();
    let mut r: usize = 0;
    let ghost all = rows_view(rows@);
    while r < rows.len()
        invariant
            r <= rows.len(),
            all == rows_view(rows@),
            entries_of(*mapping, all.take(r as int)) == Some(entry_views(entries@)),
            keys@.len() == entries@.len(),
            forall|i: int|
                0 <= i < keys@.len() ==> (#[trigger] keys@[i])@ == entry_key(entries@[i]@),
        decreases rows.len() - r,
    {
        let row = &rows[r];
        let ghost read = entry_views(entries@);
        proof {
            assert(all.take(r + 1).drop_last() =~= all.take(r as int));
            lemma_entries_fail(*mapping, all, r as int);
        }
        if !skips(mapping, row) {
            let no = match number_of(mapping, row) {
                Ok(no) => no,
                Err(e) => {
                    return Err(e);
                },
            };
            let name = cell_text(row, mapping.name);
            let title = cell_text(row, mapping.title);
            let mut key: Vec<char> = Vec::new();
            push_str(&mut key, no.as_str());
            push_str(&mut key, "|");
            push_str(&mut key, name.as_str());
            push_str(&mut key, "|");
            push_str(&mut key, title.as_str());
            let key = string_of(key.as_slice());
            let known = knows(&keys, key.as_str());
            proof {
                if known {
                    let i = choose|i: int| 0 <= i < keys@.len() && (#[trigger] keys@[i])@ == key@;
                    assert(entry_key(read[i]) == key@);
                } else if has_key(read, key@) {
                    let i = choose|i: int|
                        0 <= i < read.len() && entry_key(#[trigger] read[i]) == key@;
                    assert(keys@[i]@ == key@);
                }
            }
            if !known {
                let team_text = cell_text(row, mapping.team);
                let team = if chars_of(team_text.as_str()).len() > 0 {
                    Some(team_text)
                } else {
                    None
                };
                let size = cell_text(row, mapping.size);
                let markup = cell_markup(row, mapping.addr);
                let addr = match extract_address_lines(markup.as_str()) {
                    Ok(addr) => addr,
                    Err(e) => {
                        return Err(e);
                    },
                };
                let entry = BmsEntry { no, name, team, title, size, addr };
                assert(entry.addresses() =~= texts_of(entry.addr@));
                entries.push(entry);
                keys.push(key);
            }
        }
        r += 1;
    }
    assert(all.take(r as int) =~= all);
    Ok(entries)
}

/// Where the rows up to one cannot be read, the rows together cannot.
proof fn lemma_entries_fail(mapping: ColumnMapping, rows: Seq<Seq<CellView>>, r: int)
    requires
        0 <= r < rows.len(),
    ensures
        entries_of(mapping, rows.take(r + 1)) is None ==> entries_of(mapping, rows) is None,
    decreases rows.len() - r,
{
    if r + 1 < rows.len() {
        lemma_entries_fail(mapping, rows, r + 1);
        assert(rows.take(r + 2).drop_last() =~= rows.take(r + 1));
    } else {
        assert(rows.take(r + 1) =~= rows);
    }
}

/// The entries of a page. `None` where a selector is refused, `Some(None)`
/// where a pattern is.
pub open spec fn table_entries(html: Seq<char>) -> Option<Option<Seq<EntryView>>> {
    match selected_cells(html, "tr"@, "td, th"@) {
        Some(all_rows) => match selected_cells(html, "tr"@, "td"@) {
            Some(rows) => Some(entries_of(mapping_of(all_rows), rows)),
            None => None,
        },
        None => None,
    }
}

/// The mapping of columns that a table with the given rows has.
pub open spec fn mapping_of(rows: Seq<Seq<CellView>>) -> ColumnMapping {
    ColumnMapping {
        no: machine_index(detected_index(rows, Column::No)),
        name: machine_index(detected_index(rows, Column::Name)),
        team: machine_index(detected_index(rows, Column::Team)),
        title: machine_index(detected_index(rows, Column::Title)),
        size: machine_index(detected_index(rows, Column::Size)),
        addr: machine_index(detected_index(rows, Column::Addr)),
    }
}

/// An optional mathematical index as a machine one.
pub open spec fn machine_index(found: Option<int>) -> Option<usize> {
    match found {
        Some(i) => Some(i as usize),
        None => None,
    }
}

/// Reads the entries out of the table on a page.
pub fn parse_table(html: &str) -> (r: Result<Vec<BmsEntry>, TableError>)
    ensures
        match r {
            Ok(entries) => table_entries(html@) == Some(Some(entry_views(entries@))),
            Err(TableError::Pattern) => table_entries(html@) == Some(
                None::<Seq<EntryView>>,
            ),
            Err(TableError::Selector) => table_entries(html@) is None,
        },
{
    let all_rows = match select_cells(html, "tr", "td, th") {
        Some(rows) => rows,
        None => {
            return Err(TableError::Selector);
        },
    };
    let rows = match select_cells(html, "tr", "td") {
        Some(rows) => rows,
        None => {
            return Err(TableError::Selector);
        },
    };
    let mapping = detect_column_mapping(&all_rows);
    proof {
        let wanted = mapping_of(rows_view(all_rows@));
        assert(mapping.index(Column::No) == wanted.index(Column::No));
        assert(mapping.index(Column::Name) == wanted.index(Column::Name));
        assert(mapping.index(Column::Team) == wanted.index(Column::Team));
        assert(mapping.index(Column::Title) == wanted.index(Column::Title));
        assert(mapping.index(Column::Size) == wanted.index(Column::Size));
        assert(mapping.index(Column::Addr) == wanted.index(Column::Addr));
    }
    match parse_rows(&mapping, &rows) {
        Ok(entries) => Ok(entries),
        Err(_) => Err(TableError::Pattern),
    }
}

/// The web addresses among the lines of a text: each line without the white
/// space round it, where it starts with `http`.
pub open spec fn url_lines(input: Seq<char>) -> Seq<Seq<char>> {
    split_on(input, "\n"@).map_values(|line: Seq<char>| trimmed(line)).filter(
        |line: Seq<char>| "http"@.is_prefix_of(line),
    )
}

/// The web addresses among the lines of a text.
pub fn read_url_lines(input: &str) -> (urls: Vec<String>)
    ensures
        texts_of(urls@) == url_lines(input@),
{
    let text = chars_of(input);
    let lines = split(text.as_slice(), "\n");
    let ghost all = split_on(input@, "\n"@).map_values(|line: Seq<char>| trimmed(line));
    let ghost wanted = |line: Seq<char>| "http"@.is_prefix_of(line);
    let mut urls: Vec<String> = Vec::new();
    let mut i: usize = 0;
    while i < lines.len()
        invariant
            i <= lines.len(),
            all.len() == lines@.len(),
            forall|k: int| 0 <= k < all.len() ==> #[trigger] all[k] == trimmed(lines@[k]@),
            wanted == |line: Seq<char>| "http"@.is_prefix_of(line),
            texts_of(urls@) == all.take(i as int).filter(wanted),
        decreases lines.len() - i,
    {
        let line = trim(lines[i]);
        proof {
            lemma_filter_step(all, i as int, wanted);
        }
        if has_prefix(line, "http") {
            urls.push(string_of(line));
        }
        i += 1;
    }
    assert(all.take(i as int) =~= all);
    urls
}

} // verus!
