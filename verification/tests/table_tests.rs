use bms_downloader::pattern::PatternError;
use bms_downloader::table::{
    cell_markup, cell_text, clean_html_content, default_mapping, detect_column_mapping,
    extract_address_lines, extract_urls_and_text, is_header_row, map_header, name_column,
    number_of, parse_rows, parse_table, read_url_lines, skips, Cell, Column, ColumnMapping,
};

fn cell(text: &str) -> Cell {
    Cell { text: text.to_string(), inner_html: text.to_string() }
}

fn cell_with(text: &str, inner_html: &str) -> Cell {
    Cell { text: text.to_string(), inner_html: inner_html.to_string() }
}

fn row(texts: &[&str]) -> Vec<Cell> {
    texts.iter().map(|t| cell(t)).collect()
}

fn strings(texts: &[&str]) -> Vec<String> {
    texts.iter().map(|t| t.to_string()).collect()
}

fn indices(m: &ColumnMapping) -> [Option<usize>; 6] {
    [m.no, m.name, m.team, m.title, m.size, m.addr]
}

#[test]
fn header_text_names_a_column() {
    assert_eq!(name_column("no"), Some(Column::No));
    assert_eq!(name_column("name"), Some(Column::Name));
    assert_eq!(name_column("team"), Some(Column::Team));
    assert_eq!(name_column("title"), Some(Column::Title));
    assert_eq!(name_column("size"), Some(Column::Size));
    assert_eq!(name_column("addr"), Some(Column::Addr));
    assert_eq!(name_column("download address"), Some(Column::Addr));
    assert_eq!(name_column("notes"), Some(Column::No));
    assert_eq!(name_column("team name"), Some(Column::Name));
    assert_eq!(name_column("genre"), None);
    assert_eq!(name_column(""), None);
    assert_eq!(name_column("No"), None);
}

#[test]
fn header_of_six_named_columns() {
    let mapping = map_header(&strings(&["no", "name", "team", "title", "size", "addr"]));
    assert_eq!(indices(&mapping), [Some(0), Some(1), Some(2), Some(3), Some(4), Some(5)]);
}

#[test]
fn header_in_another_order() {
    let mapping = map_header(&strings(&["title", "addr", "no", "size", "name", "team"]));
    assert_eq!(indices(&mapping), [Some(2), Some(4), Some(5), Some(0), Some(3), Some(1)]);
}

#[test]
fn last_cell_naming_a_column_wins() {
    let mapping = map_header(&strings(&["no", "name", "name", "title", "size", "addr"]));
    assert_eq!(mapping.name, Some(2));
    assert_eq!(mapping.team, Some(2));
}

#[test]
fn header_of_five_columns_has_no_team() {
    let mapping = map_header(&strings(&["no", "x", "x", "x", "x"]));
    assert_eq!(indices(&mapping), [Some(0), Some(1), None, Some(2), Some(3), Some(4)]);
}

#[test]
fn header_of_six_columns_by_position() {
    let mapping = map_header(&strings(&["no", "x", "x", "x", "x", "x"]));
    assert_eq!(indices(&mapping), [Some(0), Some(1), Some(2), Some(3), Some(4), Some(5)]);
}

#[test]
fn header_of_other_widths_counts_from_the_right() {
    let seven = map_header(&strings(&["x", "x", "x", "x", "x", "x", "x"]));
    assert_eq!(indices(&seven), [Some(0), Some(1), Some(3), Some(4), Some(5), Some(6)]);
    let three = map_header(&strings(&["x", "x", "x"]));
    assert_eq!(indices(&three), [Some(0), Some(1), None, Some(0), Some(1), Some(2)]);
    let one = map_header(&strings(&["x"]));
    assert_eq!(indices(&one), [Some(0), None, None, None, None, Some(0)]);
    let none = map_header(&strings(&[]));
    assert_eq!(indices(&none), [None, None, None, None, None, None]);
}

#[test]
fn default_mapping_is_six_columns() {
    assert_eq!(
        indices(&default_mapping()),
        [Some(0), Some(1), Some(2), Some(3), Some(4), Some(5)]
    );
}

#[test]
fn texts_that_name_a_column() {
    assert!(is_header_row(&strings(&["genre", "title"])));
    assert!(!is_header_row(&strings(&["genre", "bpm"])));
    assert!(!is_header_row(&strings(&[])));
}

#[test]
fn mapping_is_read_off_the_first_header_row() {
    let rows = vec![
        row(&[]),
        row(&["BMS EVENT", "2024"]),
        row(&[" Title ", "NAME", "No.", "Addr"]),
        row(&["no", "name", "team", "title", "size", "addr"]),
    ];
    let mapping = detect_column_mapping(&rows);
    assert_eq!(indices(&mapping), [Some(2), Some(1), Some(0), Some(0), Some(2), Some(3)]);
}

#[test]
fn mapping_without_header_row_is_the_default() {
    let rows = vec![row(&["1", "x", "y"]), row(&["2", "z", "w"])];
    assert_eq!(
        indices(&detect_column_mapping(&rows)),
        [Some(0), Some(1), Some(2), Some(3), Some(4), Some(5)]
    );
    assert_eq!(
        indices(&detect_column_mapping(&Vec::new())),
        [Some(0), Some(1), Some(2), Some(3), Some(4), Some(5)]
    );
}

#[test]
fn markup_is_cleaned() {
    assert_eq!(
        clean_html_content(" <a href=\"https://e.x/a\">A &amp; B</a> &lt;tag&gt;&nbsp;"),
        Ok("A & B".to_string())
    );
    assert_eq!(clean_html_content("&quot;q&quot; &#39;s&#39;"), Ok("\"q\" 's'".to_string()));
    assert_eq!(clean_html_content("plain"), Ok("plain".to_string()));
    assert_eq!(clean_html_content(""), Ok("".to_string()));
}

#[test]
fn character_references_are_resolved_in_order() {
    assert_eq!(clean_html_content("&amp;quot;"), Ok("\"".to_string()));
    assert_eq!(clean_html_content("&amp;lt;b&amp;gt;"), Ok("&lt;b&gt;".to_string()));
}

#[test]
fn addresses_and_text_are_told_apart() {
    assert_eq!(
        extract_urls_and_text("main: https://a.example/x.zip mirror: http://b.example/y"),
        Ok(strings(&["main:", "https://a.example/x.zip", "mirror:", "http://b.example/y"]))
    );
    assert_eq!(
        extract_urls_and_text("<a href=\"https://a.example/x\">https://a.example/x</a>"),
        Ok(strings(&["https://a.example/x"]))
    );
    assert_eq!(extract_urls_and_text("no address"), Ok(strings(&["no address"])));
    assert_eq!(extract_urls_and_text("  "), Ok(strings(&[])));
    assert_eq!(extract_urls_and_text(""), Ok(strings(&[])));
}

#[test]
fn address_ends_at_a_character_that_no_address_holds() {
    assert_eq!(
        extract_urls_and_text("(https://a.example/x?y=1&amp;z=2)"),
        Ok(strings(&["(", "https://a.example/x?y=1&z=2", ")"]))
    );
    assert_eq!(
        extract_urls_and_text("\u{30ea}\u{30f3}\u{30af}https://a.example/\u{3042}"),
        Ok(strings(&["\u{30ea}\u{30f3}\u{30af}", "https://a.example/", "\u{3042}"]))
    );
}

#[test]
fn address_lines_of_a_cell() {
    assert_eq!(
        extract_address_lines(
            "<a href=\"https://a.example/x.zip\">https://a.example/x.zip</a><br>mirror: https://b.example/y<br> <br>"
        ),
        Ok(strings(&["https://a.example/x.zip", "mirror:", "https://b.example/y"]))
    );
    assert_eq!(extract_address_lines(""), Ok(strings(&[])));
    assert_eq!(extract_address_lines("later"), Ok(strings(&["later"])));
}

#[test]
fn cells_are_read_by_column() {
    let r = vec![cell_with("  1 ", "<b>1</b>"), cell_with("name", "<i>name</i>")];
    assert_eq!(cell_text(&r, Some(0)), "1");
    assert_eq!(cell_text(&r, Some(1)), "name");
    assert_eq!(cell_text(&r, Some(2)), "");
    assert_eq!(cell_text(&r, None), "");
    assert_eq!(cell_markup(&r, Some(0)), "<b>1</b>");
    assert_eq!(cell_markup(&r, Some(5)), "");
    assert_eq!(cell_markup(&r, None), "");
}

#[test]
fn rows_that_are_no_entries() {
    let mapping = default_mapping();
    assert!(skips(&mapping, &row(&[])));
    assert!(skips(&mapping, &row(&["", "name"])));
    assert!(skips(&mapping, &row(&["  ", "name"])));
    assert!(skips(&mapping, &row(&["No", "Name", "Team", "Title", "Size", "Addr"])));
    assert!(skips(&mapping, &row(&["1", " "])));
    assert!(skips(&mapping, &row(&["1"])));
    assert!(!skips(&mapping, &row(&["1", "name"])));
    assert!(!skips(&mapping, &row(&["No.1", "name"])));
}

#[test]
fn number_of_a_work() {
    let mapping = default_mapping();
    assert_eq!(number_of(&mapping, &row(&["12", "n"])), Ok("12".to_string()));
    assert_eq!(number_of(&mapping, &row(&["+12", "n"])), Ok("+12".to_string()));
    assert_eq!(
        number_of(&mapping, &vec![cell_with("No.7", "<a href=\"#e35\">No.7</a>"), cell("n")]),
        Ok("35".to_string())
    );
    assert_eq!(
        number_of(&mapping, &vec![cell_with("seven", "<b>seven</b>"), cell("n")]),
        Ok("seven".to_string())
    );
    assert_eq!(
        number_of(&mapping, &vec![cell_with("4294967296", "4294967296"), cell("n")]),
        Ok("4294967296".to_string())
    );
}

fn full_row(no: &str, name: &str, team: &str, title: &str, size: &str, addr: &str) -> Vec<Cell> {
    vec![cell(no), cell(name), cell(team), cell(title), cell(size), cell(addr)]
}

#[test]
fn rows_become_entries() {
    let rows = vec![
        full_row("No", "Name", "Team", "Title", "Size", "Addr"),
        full_row("1", " composer ", "", "First", "10MB", "https://a.example/1.zip"),
        full_row("2", "other", "team b", "Second", "5MB", "soon<br>https://b.example/2.zip"),
        full_row("1", "composer", "late team", "First", "11MB", "https://a.example/1b.zip"),
        full_row("", "nobody", "", "Nothing", "", ""),
        full_row("3", "", "", "Nameless", "", ""),
    ];
    let entries = match parse_rows(&default_mapping(), &rows) {
        Ok(entries) => entries,
        Err(PatternError) => panic!("pattern refused"),
    };
    assert_eq!(entries.len(), 2);
    assert_eq!(entries[0].no, "1");
    assert_eq!(entries[0].name, "composer");
    assert_eq!(entries[0].team, None);
    assert_eq!(entries[0].title, "First");
    assert_eq!(entries[0].size, "10MB");
    assert_eq!(entries[0].addr, vec!["https://a.example/1.zip"]);
    assert_eq!(entries[1].no, "2");
    assert_eq!(entries[1].team, Some("team b".to_string()));
    assert_eq!(entries[1].addr, vec!["soon", "https://b.example/2.zip"]);
}

#[test]
fn short_rows_leave_fields_empty() {
    let rows = vec![row(&["5", "composer"])];
    let entries = parse_rows(&default_mapping(), &rows).unwrap_or_default();
    assert_eq!(entries.len(), 1);
    assert_eq!(entries[0].team, None);
    assert_eq!(entries[0].title, "");
    assert_eq!(entries[0].size, "");
    assert!(entries[0].addr.is_empty());
}

const PAGE: &str = "<html><body><table>\
<tr><th>No</th><th>Name</th><th>Team</th><th>Title</th><th>Size</th><th>Addr</th></tr>\
<tr><td><a name=\"e1\">1</a></td><td>composer</td><td>team a</td><td>First &amp; Last</td><td>10MB</td>\
<td><a href=\"https://a.example/1.zip\">https://a.example/1.zip</a><br>mirror https://drive.google.com/file/d/ID1/view</td></tr>\
<tr><td>2</td><td>other</td><td></td><td>Second</td><td>5MB</td><td>later</td></tr>\
</table></body></html>";

#[test]
fn table_of_a_page_is_read() {
    let entries = match parse_table(PAGE) {
        Ok(entries) => entries,
        Err(e) => panic!("table refused: {:?}", e),
    };
    assert_eq!(entries.len(), 2);
    assert_eq!(entries[0].no, "1");
    assert_eq!(entries[0].name, "composer");
    assert_eq!(entries[0].team, Some("team a".to_string()));
    assert_eq!(entries[0].title, "First & Last");
    assert_eq!(entries[0].size, "10MB");
    assert_eq!(
        entries[0].addr,
        vec!["https://a.example/1.zip", "mirror", "https://drive.google.com/file/d/ID1/view"]
    );
    assert_eq!(entries[1].no, "2");
    assert_eq!(entries[1].team, None);
    assert_eq!(entries[1].addr, vec!["later"]);
}

#[test]
fn page_without_table_has_no_entries() {
    assert!(matches!(parse_table("<html><body><p>closed</p></body></html>"), Ok(e) if e.is_empty()));
    assert!(matches!(parse_table(""), Ok(e) if e.is_empty()));
}

#[test]
fn table_with_columns_in_another_order() {
    let page = "<table><tr><td>Title</td><td>No</td><td>Name</td><td>Addr</td></tr>\
<tr><td>Song</td><td>9</td><td>me</td><td>https://a.example/9.zip</td></tr></table>";
    let entries = parse_table(page).unwrap_or_default();
    assert_eq!(entries.len(), 1);
    assert_eq!(entries[0].no, "9");
    assert_eq!(entries[0].name, "me");
    assert_eq!(entries[0].title, "Song");
    // columns that the header does not name are counted from the right
    assert_eq!(entries[0].size, "me");
    assert_eq!(entries[0].team, Some("Song".to_string()));
    assert_eq!(entries[0].addr, vec!["https://a.example/9.zip"]);
}

#[test]
fn url_lines_of_a_text() {
    assert_eq!(
        read_url_lines("https://a.example/list\r\n\n  http://b.example/list  \n# note\nftp://c\nhttps"),
        strings(&["https://a.example/list", "http://b.example/list", "https"])
    );
    assert_eq!(read_url_lines(""), strings(&[]));
}
