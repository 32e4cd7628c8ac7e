//! The library panel's words and columns: the note about rows the library
//! could not read, the columns of the table and their headings, which way
//! the rows are sorted, and the text conditions its filters place.

use vstd::prelude::*;
use crate::paths::{file_name_of, path_file_name};
use crate::order::{
    Order, compare_chars, compare_i64, compare_paths, flip, int_order, lemma_path_order_total,
    lemma_text_order_total, path_order, reversed, text_order,
};
use crate::text::{
    chars_of, decimal, decimal_text, is_white, joined, lowercase, lowercase_of, occurs, occurs_at,
    occurs_in,
    owned, string_of, trim, trimmed, white,
};
use crate::units::{ContentHash, Samples};

verus! {

/// What the note about one unread row says.
pub const ONE_ROW_SKIPPED: &'static str = "1 row of the library could not be read, so the panel leaves it out. Library > Scan music folder replaces it.";

/// What the note about several unread rows says after their count.
pub const ROWS_SKIPPED: &'static str = " rows of the library could not be read, so the panel leaves them out. Library > Scan music folder replaces them.";

/// What the status line says about `skipped` rows a query could not read.
pub open spec fn skipped_note_of(skipped: nat) -> Seq<char> {
    if skipped == 0 {
        Seq::empty()
    } else if skipped == 1 {
        ONE_ROW_SKIPPED@
    } else {
        decimal(skipped) + ROWS_SKIPPED@
    }
}

/// What the status line says about the rows of a library a query could not
/// read, which is nothing when it could read every row. A scan of the music
/// folder reads the file again and replaces the record, which is the remedy
/// this names.
pub fn skipped_note(skipped: usize) -> (r: String)
    ensures
        r@ == skipped_note_of(skipped as nat),
{
    if skipped == 0 {
        String::new()
    } else if skipped == 1 {
        owned(ONE_ROW_SKIPPED)
    } else {
        let count = decimal_text(skipped as u64);
        joined(count.as_str(), ROWS_SKIPPED)
    }
}

/// One column of the table, in the order the window draws them.
#[derive(Debug, Clone, Copy, PartialEq, Eq, Structural)]
pub enum Column {
    /// The artist.
    Artist,
    /// The title.
    Title,
    /// The year the music was first released.
    Year,
    /// The tempo.
    Bpm,
    /// The Camelot code.
    Key,
    /// The record label.
    Label,
    /// The label's catalog number.
    CatalogNumber,
    /// The title of the release.
    Release,
    /// The track's position on the release.
    TrackNumber,
    /// The length of the audio.
    Duration,
}

/// The heading the window draws over `column`.
pub open spec fn heading_of(column: Column) -> Seq<char> {
    match column {
        Column::Artist => "Artist"@,
        Column::Title => "Title"@,
        Column::Year => "Year"@,
        Column::Bpm => "BPM"@,
        Column::Key => "Key"@,
        Column::Label => "Label"@,
        Column::CatalogNumber => "Catalog no."@,
        Column::Release => "Release"@,
        Column::TrackNumber => "Track no."@,
        Column::Duration => "Duration"@,
    }
}

impl Column {
    /// Every column, left to right.
    pub const ALL: [Column; 10] = [
        Column::Artist,
        Column::Title,
        Column::Year,
        Column::Bpm,
        Column::Key,
        Column::Label,
        Column::CatalogNumber,
        Column::Release,
        Column::TrackNumber,
        Column::Duration,
    ];

    /// The heading the window draws over the column.
    pub fn heading(self) -> (r: &'static str)
        ensures
            r@ == heading_of(self),
    {
        match self {
            Column::Artist => "Artist",
            Column::Title => "Title",
            Column::Year => "Year",
            Column::Bpm => "BPM",
            Column::Key => "Key",
            Column::Label => "Label",
            Column::CatalogNumber => "Catalog no.",
            Column::Release => "Release",
            Column::TrackNumber => "Track no.",
            Column::Duration => "Duration",
        }
    }
}

/// Which column the rows are sorted by, and which way.
#[derive(Debug, Clone, Copy, PartialEq, Eq, Structural)]
pub struct Sort {
    /// The column.
    pub column: Column,
    /// Whether the greatest value comes first. Rows with no value in the
    /// column come last whichever way the sort runs.
    pub descending: bool,
}

/// The arrow a heading shows for a descending sort.
pub const DOWN_ARROW: &'static str = " \u{23f7}";

/// The arrow a heading shows for an ascending sort.
pub const UP_ARROW: &'static str = " \u{23f6}";

/// The text of the heading over `column`, with the arrow that says which
/// way `sort` runs.
pub open spec fn heading_text_of(column: Column, sort: Sort) -> Seq<char> {
    heading_of(column) + if sort.descending {
        DOWN_ARROW@
    } else {
        UP_ARROW@
    }
}

/// The heading of `column` with the arrow that says which way `sort` runs,
/// which the heading row draws whether or not the table is sorted by it.
pub fn heading_text(column: Column, sort: Sort) -> (r: String)
    ensures
        r@ == heading_text_of(column, sort),
{
    let way = if sort.descending { DOWN_ARROW } else { UP_ARROW };
    joined(column.heading(), way)
}

/// The sort a click on the heading of `column` leaves: a column other than
/// the sorted one sorts ascending, and the sorted column reverses the
/// order.
pub open spec fn sort_after_click(sort: Sort, column: Column) -> Sort {
    Sort { column, descending: sort.column == column && !sort.descending }
}

/// The sort a click on the heading of `column` leaves, as
/// [`sort_after_click`] says.
pub fn clicked(sort: Sort, column: Column) -> (r: Sort)
    ensures
        r == sort_after_click(sort, column),
{
    Sort { column, descending: sort.column == column && !sort.descending }
}

/// Whether `text` places a condition on the rows, which empty text and text
/// of only spaces do not.
pub fn a_condition(text: &str) -> (r: bool)
    ensures
        r == (trim(text@).len() > 0),
{
    let t = trimmed(text);
    chars_of(t.as_str()).len() > 0
}

/// Whether a field with `value` meets a condition of `text`: the text, with
/// the spaces around it removed, occurs in the value, both compared in
/// lowercase. A field with no value meets no condition.
pub open spec fn meets(value: Option<Seq<char>>, text: Seq<char>) -> bool {
    match value {
        Some(v) => occurs_in(lowercase_of(v), lowercase_of(trim(text))),
        None => false,
    }
}

/// Whether `value` contains `text`, with the spaces around `text` ignored
/// and the trimmed text compared without regard to case. A field the library
/// has no value for never matches.
pub fn contains(value: Option<&String>, text: &str) -> (r: bool)
    ensures
        r == meets(
            match value {
                Some(v) => Some(v@),
                None => None,
            },
            text@,
        ),
{
    match value {
        Some(v) => {
            let hay = lowercase(v.as_str());
            let t = trimmed(text);
            let needle = lowercase(t.as_str());
            occurs(hay.as_str(), needle.as_str())
        },
        None => false,
    }
}


/// The letter of a Camelot code: the minor keys are `A` and the major keys
/// `B`.
#[derive(Debug, Clone, Copy, PartialEq, Eq, Structural)]
pub enum Letter {
    /// A minor key.
    A,
    /// A major key.
    B,
}

/// A key as a Camelot code: a number around the wheel, from 1 to 12, and a
/// letter.
#[derive(Debug, Clone, Copy, PartialEq, Eq, Structural)]
pub struct Camelot {
    /// The number around the wheel, from 1 to 12.
    pub number: u8,
    /// The letter.
    pub letter: Letter,
}

/// A Camelot code written out, as in `8A`.
pub open spec fn camelot_text_of(code: Camelot) -> Seq<char> {
    decimal(code.number as nat) + match code.letter {
        Letter::A => seq!['A'],
        Letter::B => seq!['B'],
    }
}

/// A Camelot code written out, as [`camelot_text_of`] says.
pub fn camelot_text(code: Camelot) -> (r: String)
    ensures
        r@ == camelot_text_of(code),
{
    let number = decimal_text(code.number as u64);
    let r = match code.letter {
        Letter::A => joined(number.as_str(), "A"),
        Letter::B => joined(number.as_str(), "B"),
    };
    proof {
        reveal_strlit("A");
        reveal_strlit("B");
    }
    r
}

/// Where a Camelot code stands around the wheel: `2` for every step and `1`
/// more for `B` than for `A`, so that the codes run `1A`, `1B`, `2A`, and on
/// to `12B`.
pub open spec fn wheel_place(code: Camelot) -> int {
    code.number as int * 2 + match code.letter {
        Letter::A => 0int,
        Letter::B => 1int,
    }
}

/// One track as the library holds it, with what the panel reads of it.
///
/// The tempo comes as a whole number that orders tempos as their values do,
/// with its text to one decimal place beside it, and the length as a count
/// of frames with its text beside it, so that the panel sorts, narrows, and
/// searches by whole numbers and texts alone.
pub struct TrackRecord {
    /// The track's content hash.
    pub hash: ContentHash,
    /// The file.
    pub path: String,
    /// The artist, if known.
    pub artist: Option<String>,
    /// The title, if known.
    pub title: Option<String>,
    /// The year, if known.
    pub year: Option<u16>,
    /// Whether the year is an estimate.
    pub year_is_approximate: bool,
    /// Whether the artist and title were guessed from the file name.
    pub guessed: bool,
    /// The title of the release the track came from, when known.
    pub release_title: Option<String>,
    /// The record label, when known.
    pub label: Option<String>,
    /// The label's catalog number, when known.
    pub catalog_number: Option<String>,
    /// The track's position on the release, counting from one, when known.
    pub track_number: Option<u16>,
    /// The tempo, as a whole number that orders tempos as their values do.
    pub bpm_rank: i64,
    /// The tempo with one decimal place, as in `140.0`.
    pub bpm_text: String,
    /// The length in frames.
    pub length: Samples,
    /// The length as minutes, seconds, and tenths, as in `5:00.0`.
    pub length_text: String,
    /// The track's Camelot code, if a key analyzer answered.
    pub key: Option<Camelot>,
}

/// What a column sorts a track by: text compared without regard to case, a
/// number, or nothing where the track has no value in the column.
pub enum SortKey {
    /// Text, folded to lowercase.
    Text(Seq<char>),
    /// A number.
    Number(int),
    /// The track has no value in the column.
    Missing,
}

/// The view of a text that may be absent.
pub open spec fn opt_text(s: Option<String>) -> Option<Seq<char>> {
    match s {
        Some(s) => Some(s@),
        None => None,
    }
}

/// A text key, or none.
pub open spec fn text_key(s: Option<String>) -> SortKey {
    match s {
        Some(s) => SortKey::Text(lowercase_of(s@)),
        None => SortKey::Missing,
    }
}

/// A number key, or none.
pub open spec fn number_key(n: Option<u16>) -> SortKey {
    match n {
        Some(n) => SortKey::Number(n as int),
        None => SortKey::Missing,
    }
}

/// What `column` sorts `record` by.
pub open spec fn sort_key(record: TrackRecord, column: Column) -> SortKey {
    match column {
        Column::Artist => text_key(record.artist),
        Column::Title => text_key(record.title),
        Column::Year => number_key(record.year),
        Column::Bpm => SortKey::Number(record.bpm_rank as int),
        Column::Key => match record.key {
            Some(code) => SortKey::Number(wheel_place(code)),
            None => SortKey::Missing,
        },
        Column::Label => text_key(record.label),
        Column::CatalogNumber => text_key(record.catalog_number),
        Column::Release => text_key(record.release_title),
        Column::TrackNumber => number_key(record.track_number),
        Column::Duration => SortKey::Number(record.length.0 as int),
    }
}

/// Whether a column holds text.
pub open spec fn text_column(column: Column) -> bool {
    column == Column::Artist || column == Column::Title || column == Column::Label || column
        == Column::CatalogNumber || column == Column::Release
}

/// Whether `key` is of the kind the column's keys are.
pub open spec fn of_kind(key: SortKey, text: bool) -> bool {
    match key {
        SortKey::Text(_) => text,
        SortKey::Number(_) => !text,
        SortKey::Missing => true,
    }
}

/// How two keys of one column compare, ascending.
pub open spec fn key_order(a: SortKey, b: SortKey) -> Order {
    match (a, b) {
        (SortKey::Text(x), SortKey::Text(y)) => text_order(x, y),
        (SortKey::Number(x), SortKey::Number(y)) => int_order(x, y),
        _ => Order::Equal,
    }
}

/// How two keys order the rows they belong to: a track with no value in the
/// column comes after every track with one, whichever way the sort runs,
/// and every other pair runs the way `descending` says.
pub open spec fn ordered(a: SortKey, b: SortKey, descending: bool) -> Order {
    match (a, b) {
        (SortKey::Missing, SortKey::Missing) => Order::Equal,
        (SortKey::Missing, _) => Order::Greater,
        (_, SortKey::Missing) => Order::Less,
        _ => if descending {
            flip(key_order(a, b))
        } else {
            key_order(a, b)
        },
    }
}

/// `first`, or `second` where `first` is level.
pub open spec fn then(first: Order, second: Order) -> Order {
    if first == Order::Equal {
        second
    } else {
        first
    }
}

/// The order two records keep when they tie on the sorted column: the
/// artist ascending, then the title, then the path, with a missing artist or
/// title after every present one.
pub open spec fn tie_break(l: TrackRecord, r: TrackRecord) -> Order {
    then(
        ordered(text_key(l.artist), text_key(r.artist), false),
        then(ordered(text_key(l.title), text_key(r.title), false), path_order(l.path@, r.path@)),
    )
}

/// How two records order the rows: by the sorted column, then as
/// [`tie_break`] has them.
pub open spec fn record_order(l: TrackRecord, r: TrackRecord, sort: Sort) -> Order {
    then(
        ordered(sort_key(l, sort.column), sort_key(r, sort.column), sort.descending),
        tie_break(l, r),
    )
}

/// Whether the record at `i` comes before the one at `j` in the sorted
/// rows: it orders first, or the two tie and it was read first.
pub open spec fn comes_before(records: Seq<TrackRecord>, sort: Sort, i: int, j: int) -> bool {
    record_order(records[i], records[j], sort) == Order::Less || (record_order(
        records[i],
        records[j],
        sort,
    ) == Order::Equal && i < j)
}

/// Whether `s` puts every record of `records` in the order of `sort`: every
/// position once, and each before every later one.
pub open spec fn sorted_by(records: Seq<TrackRecord>, sort: Sort, s: Seq<usize>) -> bool {
    &&& s.len() == records.len()
    &&& forall|p: int| 0 <= p < s.len() ==> #[trigger] s[p] < records.len()
    &&& forall|p: int, q: int| 0 <= p < q < s.len() ==> comes_before(records, sort, #[trigger] s[p] as int, #[trigger] s[q] as int)
}

/// The properties of an order that sorting relies on: swapping the sides
/// flips the answer, and coming first carries over through a tie or a
/// second coming first.
pub open spec fn preorder_at(
    xy: Order,
    yx: Order,
    yz: Order,
    xz: Order,
) -> bool {
    &&& xy == flip(yx)
    &&& (xy == Order::Less && yz == Order::Less) ==> xz == Order::Less
    &&& (xy == Order::Less && yz == Order::Equal) ==> xz == Order::Less
    &&& (xy == Order::Equal && yz == Order::Less) ==> xz == Order::Less
    &&& (xy == Order::Equal && yz == Order::Equal) ==> xz == Order::Equal
}

proof fn lemma_key_flip(a: SortKey, b: SortKey, text: bool)
    requires
        of_kind(a, text),
        of_kind(b, text),
        !(a is Missing),
        !(b is Missing),
    ensures
        key_order(a, b) == flip(key_order(b, a)),
{
    lemma_text_order_total();
    match (a, b) {
        (SortKey::Text(x), SortKey::Text(y)) => {
            assert(text_order(x, y) == flip(text_order(y, x)));
        },
        _ => {},
    }
}

proof fn lemma_key_trans(a: SortKey, b: SortKey, c: SortKey, text: bool)
    requires
        of_kind(a, text),
        of_kind(b, text),
        of_kind(c, text),
        !(a is Missing),
        !(b is Missing),
        !(c is Missing),
    ensures
        (key_order(a, b) == Order::Less && key_order(b, c) == Order::Less) ==> key_order(a, c) == Order::Less,
        (key_order(a, b) == Order::Less && key_order(b, c) == Order::Equal) ==> key_order(a, c) == Order::Less,
        (key_order(a, b) == Order::Equal && key_order(b, c) == Order::Less) ==> key_order(a, c) == Order::Less,
        (key_order(a, b) == Order::Equal && key_order(b, c) == Order::Equal) ==> key_order(a, c) == Order::Equal,
        (key_order(a, b) == Order::Greater && key_order(b, c) == Order::Greater) ==> key_order(a, c) == Order::Greater,
        (key_order(a, b) == Order::Greater && key_order(b, c) == Order::Equal) ==> key_order(a, c) == Order::Greater,
        (key_order(a, b) == Order::Equal && key_order(b, c) == Order::Greater) ==> key_order(a, c) == Order::Greater,
{
    lemma_text_order_total();
    match (a, b, c) {
        (SortKey::Text(x), SortKey::Text(y), SortKey::Text(z)) => {
            if text_order(x, y) == Order::Equal {
                assert(x == y);
            }
            if text_order(y, z) == Order::Equal {
                assert(y == z);
            }
            assert((text_order(x, y) == Order::Less && text_order(y, z) == Order::Less) ==> text_order(x, z) == Order::Less);
            assert((text_order(z, y) == Order::Less && text_order(y, x) == Order::Less) ==> text_order(z, x) == Order::Less);
            assert(text_order(x, z) == flip(text_order(z, x)));
            assert(text_order(x, y) == flip(text_order(y, x)));
            assert(text_order(y, z) == flip(text_order(z, y)));
        },
        _ => {},
    }
}

proof fn lemma_ordered(a: SortKey, b: SortKey, c: SortKey, text: bool, descending: bool)
    requires
        of_kind(a, text),
        of_kind(b, text),
        of_kind(c, text),
    ensures
        preorder_at(ordered(a, b, descending), ordered(b, a, descending), ordered(b, c, descending), ordered(a, c, descending)),
{
    if !(a is Missing) && !(b is Missing) {
        lemma_key_flip(a, b, text);
    }
    if !(a is Missing) && !(b is Missing) && !(c is Missing) {
        lemma_key_trans(a, b, c, text);
    }
}

proof fn lemma_then(
    xy: Order, yx: Order, yz: Order, xz: Order,
    xy2: Order, yx2: Order, yz2: Order, xz2: Order,
)
    requires
        preorder_at(xy, yx, yz, xz),
        preorder_at(xy2, yx2, yz2, xz2),
    ensures
        preorder_at(then(xy, xy2), then(yx, yx2), then(yz, yz2), then(xz, xz2)),
{
}

proof fn lemma_path_preorder(x: Seq<char>, y: Seq<char>, z: Seq<char>)
    ensures
        preorder_at(path_order(x, y), path_order(y, x), path_order(y, z), path_order(x, z)),
{
    lemma_path_order_total();
    crate::order::lemma_path_order_equal(x, y);
    crate::order::lemma_path_order_equal(y, z);
    crate::order::lemma_path_order_equal(x, z);
}

proof fn lemma_sort_key_kind(record: TrackRecord, column: Column)
    ensures
        of_kind(sort_key(record, column), text_column(column)),
{
}

/// Ordering records is a total preorder, which is what sorting by it
/// relies on.
pub proof fn lemma_record_order(x: TrackRecord, y: TrackRecord, z: TrackRecord, sort: Sort)
    ensures
        preorder_at(
            record_order(x, y, sort),
            record_order(y, x, sort),
            record_order(y, z, sort),
            record_order(x, z, sort),
        ),
{
    let col = sort.column;
    lemma_sort_key_kind(x, col);
    lemma_sort_key_kind(y, col);
    lemma_sort_key_kind(z, col);
    lemma_ordered(sort_key(x, col), sort_key(y, col), sort_key(z, col), text_column(col), sort.descending);
    lemma_ordered(text_key(x.artist), text_key(y.artist), text_key(z.artist), true, false);
    lemma_ordered(text_key(x.title), text_key(y.title), text_key(z.title), true, false);
    lemma_path_preorder(x.path@, y.path@, z.path@);
    lemma_then(
        ordered(text_key(x.title), text_key(y.title), false),
        ordered(text_key(y.title), text_key(x.title), false),
        ordered(text_key(y.title), text_key(z.title), false),
        ordered(text_key(x.title), text_key(z.title), false),
        path_order(x.path@, y.path@),
        path_order(y.path@, x.path@),
        path_order(y.path@, z.path@),
        path_order(x.path@, z.path@),
    );
}



/// A sort key as the program holds it.
enum Key {
    Text(String),
    Number(i64),
    Missing,
}

impl View for Key {
    type V = SortKey;

    closed spec fn view(&self) -> SortKey {
        match self {
            Key::Text(t) => SortKey::Text(t@),
            Key::Number(n) => SortKey::Number(*n as int),
            Key::Missing => SortKey::Missing,
        }
    }
}

fn text_key_of(value: &Option<String>) -> (k: Key)
    ensures
        k@ == text_key(*value),
{
    match value {
        Some(v) => Key::Text(lowercase(v.as_str())),
        None => Key::Missing,
    }
}

fn number_key_of(value: Option<u16>) -> (k: Key)
    ensures
        k@ == number_key(value),
{
    match value {
        Some(v) => Key::Number(v as i64),
        None => Key::Missing,
    }
}

/// What `column` sorts `record` by, as [`sort_key`] says.
fn sort_key_of(record: &TrackRecord, column: Column) -> (k: Key)
    ensures
        k@ == sort_key(*record, column),
{
    match column {
        Column::Artist => text_key_of(&record.artist),
        Column::Title => text_key_of(&record.title),
        Column::Year => number_key_of(record.year),
        Column::Bpm => Key::Number(record.bpm_rank),
        Column::Key => match record.key {
            Some(code) => {
                let letter: i64 = match code.letter {
                    Letter::A => 0,
                    Letter::B => 1,
                };
                Key::Number(code.number as i64 * 2 + letter)
            },
            None => Key::Missing,
        },
        Column::Label => text_key_of(&record.label),
        Column::CatalogNumber => text_key_of(&record.catalog_number),
        Column::Release => text_key_of(&record.release_title),
        Column::TrackNumber => number_key_of(record.track_number),
        Column::Duration => Key::Number(record.length.0),
    }
}

/// How two keys order the rows they belong to, as [`ordered`] says.
fn order_keys(a: &Key, b: &Key, descending: bool) -> (o: Order)
    ensures
        o == ordered(a@, b@, descending),
{
    let ascending = match (a, b) {
        (Key::Missing, Key::Missing) => {
            return Order::Equal;
        },
        (Key::Missing, _) => {
            return Order::Greater;
        },
        (_, Key::Missing) => {
            return Order::Less;
        },
        (Key::Text(x), Key::Text(y)) => compare_chars(&chars_of(x.as_str()), &chars_of(y.as_str())),
        (Key::Number(x), Key::Number(y)) => compare_i64(*x, *y),
        _ => Order::Equal,
    };
    if descending {
        reversed(ascending)
    } else {
        ascending
    }
}

/// How two records order the rows, as [`record_order`] says.
fn compare_records(l: &TrackRecord, r: &TrackRecord, sort: Sort) -> (o: Order)
    ensures
        o == record_order(*l, *r, sort),
{
    let by_column = order_keys(
        &sort_key_of(l, sort.column),
        &sort_key_of(r, sort.column),
        sort.descending,
    );
    if by_column != Order::Equal {
        return by_column;
    }
    let by_artist = order_keys(&text_key_of(&l.artist), &text_key_of(&r.artist), false);
    if by_artist != Order::Equal {
        return by_artist;
    }
    let by_title = order_keys(&text_key_of(&l.title), &text_key_of(&r.title), false);
    if by_title != Order::Equal {
        return by_title;
    }
    compare_paths(l.path.as_str(), r.path.as_str())
}

proof fn lemma_same_is_level(x: TrackRecord, sort: Sort)
    ensures
        record_order(x, x, sort) == Order::Equal,
{
    lemma_record_order(x, x, x, sort);
}

/// Every record of `records`, in the order of `sort`: the sorted column,
/// and then the artist, the title, and the path where two records tie on
/// it, and the order they were read in where they tie on all of those.
fn sort_the_records(records: &Vec<TrackRecord>, sort: Sort) -> (s: Vec<usize>)
    ensures
        sorted_by(records@, sort, s@),
{
    let n = records.len();
    let mut s: Vec<usize> = Vec::new();
    let mut i: usize = 0;
    while i < n
        invariant
            i <= n == records@.len(),
            s@.len() == i,
            forall|p: int| 0 <= p < s@.len() ==> #[trigger] s@[p] < i,
            forall|p: int, q: int| 0 <= p < q < s@.len() ==> comes_before(records@, sort, #[trigger] s@[p] as int, #[trigger] s@[q] as int),
        decreases n - i,
    {
        let mut at: usize = 0;
        while at < s.len() && compare_records(&records[i], &records[s[at]], sort) != Order::Less
            invariant
                at <= s@.len() == i < n == records@.len(),
                forall|p: int| 0 <= p < s@.len() ==> #[trigger] s@[p] < i,
                forall|k: int| 0 <= k < at ==> record_order(records@[i as int], records@[#[trigger] s@[k] as int], sort) != Order::Less,
            decreases s@.len() - at,
        {
            at = at + 1;
        }
        let ghost before = s@;
        s.insert(at, i);
        proof {
            let t = s@;
            assert(t == before.insert(at as int, i));
            let ri = records@[i as int];
            assert forall|p: int, q: int| 0 <= p < q < t.len() implies comes_before(records@, sort, #[trigger] t[p] as int, #[trigger] t[q] as int) by {
                if q < at {
                    assert(t[p] == before[p] && t[q] == before[q]);
                } else if q == at {
                    assert(t[p] == before[p]);
                    let rk = records@[before[p] as int];
                    lemma_record_order(ri, rk, ri, sort);
                    assert(record_order(ri, rk, sort) != Order::Less);
                } else if p > at {
                    assert(t[p] == before[p - 1] && t[q] == before[q - 1]);
                } else if p == at {
                    assert(t[q] == before[q - 1]);
                    let ra = records@[before[at as int] as int];
                    let rq = records@[before[q - 1] as int];
                    assert(record_order(ri, ra, sort) == Order::Less);
                    if q - 1 > at {
                        assert(comes_before(records@, sort, before[at as int] as int, before[q - 1] as int));
                    } else {
                        lemma_same_is_level(ra, sort);
                    }
                    lemma_record_order(ri, ra, rq, sort);
                } else {
                    assert(t[p] == before[p] && t[q] == before[q - 1]);
                }
            }
            assert forall|p: int| 0 <= p < t.len() implies #[trigger] t[p] < i + 1 by {
                if p < at {
                    assert(t[p] == before[p]);
                } else if p > at {
                    assert(t[p] == before[p - 1]);
                }
            }
        }
        i = i + 1;
    }
    s
}



/// The last run of characters in `s` that holds no white space.
pub open spec fn tail_word(s: Seq<char>) -> Seq<char>
    decreases s.len(),
{
    if s.len() == 0 || is_white(s.last()) {
        Seq::empty()
    } else {
        tail_word(s.drop_last()).push(s.last())
    }
}

pub proof fn lemma_tail_word_bounds(s: Seq<char>)
    ensures
        tail_word(s).len() <= s.len(),
        s.len() > 0 && !is_white(s.last()) ==> tail_word(s).len() > 0,
    decreases s.len(),
{
    if s.len() > 0 && !is_white(s.last()) {
        lemma_tail_word_bounds(s.drop_last());
    }
}

/// The words of `s`, as `str::split_whitespace` gives them: the runs of
/// characters between white space, in order.
pub open spec fn words(s: Seq<char>) -> Seq<Seq<char>>
    decreases s.len(),
{
    if s.len() == 0 {
        Seq::empty()
    } else if is_white(s.last()) {
        words(s.drop_last())
    } else {
        proof {
            lemma_tail_word_bounds(s);
        }
        words(s.subrange(0, s.len() - tail_word(s).len())).push(tail_word(s))
    }
}

proof fn lemma_tail_word_split(p: Seq<char>, k: int)
    requires
        0 <= k <= p.len(),
        forall|m: int| k <= m < p.len() ==> !is_white(p[m]),
    ensures
        tail_word(p) == tail_word(p.subrange(0, k)) + p.subrange(k, p.len() as int),
    decreases p.len(),
{
    if k == p.len() {
        assert(p.subrange(0, k) =~= p);
        assert(p.subrange(k, p.len() as int) =~= Seq::<char>::empty());
    } else {
        lemma_tail_word_split(p.drop_last(), k);
        assert(p.drop_last().subrange(0, k) =~= p.subrange(0, k));
        assert(p.subrange(k, p.len() as int) =~= p.drop_last().subrange(k, p.len() - 1).push(p.last()));
    }
}

/// The words of a search, each in lowercase.
pub open spec fn search_words(search: Seq<char>) -> Seq<Seq<char>> {
    words(search).map_values(|w: Seq<char>| lowercase_of(w))
}

/// The words of `text` in lowercase, as [`search_words`] says.
pub fn words_of(text: &str) -> (r: Vec<String>)
    ensures
        r@.map_values(|w: String| w@) == search_words(text@),
{
    let cs = chars_of(text);
    let n = cs.len();
    let mut backwards: Vec<String> = Vec::new();
    let mut end: usize = n;
    assert(cs@.subrange(0, n as int) =~= cs@);
    loop
        invariant
            end <= n == cs@.len(),
            cs@ == text@,
            words(cs@) == words(cs@.subrange(0, end as int)) + backwards@.map_values(|w: String| w@).reverse(),
        ensures
            words(cs@) == words(cs@.subrange(0, 0)) + backwards@.map_values(|w: String| w@).reverse(),
        decreases end,
    {
        if end == 0 {
            break;
        }
        let ghost p = cs@.subrange(0, end as int);
        if white(cs[end - 1]) {
            assert(p.drop_last() =~= cs@.subrange(0, end - 1));
            end = end - 1;
        } else {
            let mut start: usize = end;
            while start > 0 && !white(cs[start - 1])
                invariant
                    start <= end <= cs@.len(),
                    forall|m: int| start <= m < end ==> !is_white(cs@[m]),
                decreases start,
            {
                start = start - 1;
            }
            proof {
                lemma_tail_word_split(p, start as int);
                assert(p.subrange(0, start as int) =~= cs@.subrange(0, start as int));
                assert(p.subrange(start as int, end as int) =~= cs@.subrange(start as int, end as int));
                if start > 0 {
                    assert(is_white(p.subrange(0, start as int).last()));
                }
                assert(tail_word(p) =~= cs@.subrange(start as int, end as int));
                lemma_tail_word_bounds(p);
            }
            let ghost before = backwards@.map_values(|w: String| w@);
            backwards.push(string_of(&cs, start, end));
            proof {
                let after = backwards@.map_values(|w: String| w@);
                assert(after =~= before.push(cs@.subrange(start as int, end as int)));
                assert(after.reverse() =~= seq![tail_word(p)] + before.reverse());
                assert(words(p) == words(cs@.subrange(0, start as int)).push(tail_word(p)));
                assert(words(cs@.subrange(0, start as int)).push(tail_word(p)) + before.reverse() =~= words(cs@.subrange(0, start as int)) + after.reverse());
            }
            end = start;
        }
    }
    assert(cs@.subrange(0, 0) =~= Seq::<char>::empty());
    let ghost back = backwards@.map_values(|w: String| w@);
    assert(words(text@) =~= back.reverse());
    let mut r: Vec<String> = Vec::new();
    let mut i = backwards.len();
    while i > 0
        invariant
            i <= backwards@.len(),
            back == backwards@.map_values(|w: String| w@),
            r@.map_values(|w: String| w@) == back.reverse().take(back.len() - i).map_values(|w: Seq<char>| lowercase_of(w)),
        decreases i,
    {
        i = i - 1;
        let ghost before = r@.map_values(|w: String| w@);
        r.push(lowercase(backwards[i].as_str()));
        proof {
            let rev = back.reverse();
            let k = back.len() - i - 1;
            assert(rev[k] == back[i as int]);
            assert(back[i as int] == backwards@[i as int]@);
            assert(rev.take(k + 1) =~= rev.take(k).push(rev[k]));
            assert(rev.take(k + 1).map_values(|w: Seq<char>| lowercase_of(w)) =~= rev.take(k).map_values(|w: Seq<char>| lowercase_of(w)).push(lowercase_of(rev[k])));
            assert(r@.map_values(|w: String| w@) =~= before.push(lowercase_of(rev[k])));
            assert(r@.map_values(|w: String| w@) =~= rev.take(k + 1).map_values(|w: Seq<char>| lowercase_of(w)));
        }
    }
    assert(back.reverse().take(back.len() as int) =~= back.reverse());
    r
}

/// One line of the text a search looks through: the value in lowercase and
/// a line break.
pub open spec fn line(v: Seq<char>) -> Seq<char> {
    lowercase_of(v) + seq!['\n']
}

/// The line of a value the library may not have, which is no line at all
/// where it has none.
pub open spec fn opt_line(v: Option<Seq<char>>) -> Seq<char> {
    match v {
        Some(v) => line(v),
        None => Seq::empty(),
    }
}

/// The line of a number the library may not have.
pub open spec fn number_line(n: Option<u16>) -> Seq<char> {
    match n {
        Some(n) => line(decimal(n as nat)),
        None => Seq::empty(),
    }
}

/// The text a search looks through: the artist, the title, the year as
/// digits, the tempo with one decimal place, the Camelot code, the label,
/// the catalog number, the release title, the track number, and the file
/// path, each in lowercase on a line of its own, and a value the library
/// has none of left out.
pub open spec fn searchable_of(r: TrackRecord) -> Seq<char> {
    opt_line(opt_text(r.artist)) + opt_line(opt_text(r.title)) + number_line(r.year) + line(
        r.bpm_text@,
    ) + match r.key {
        Some(code) => line(camelot_text_of(code)),
        None => Seq::empty(),
    } + opt_line(opt_text(r.label)) + opt_line(opt_text(r.catalog_number)) + opt_line(
        opt_text(r.release_title),
    ) + number_line(r.track_number) + line(r.path@)
}

fn push_line(text: String, value: &str) -> (r: String)
    ensures
        r@ == text@ + line(value@),
{
    let lower = lowercase(value);
    let a = joined(text.as_str(), lower.as_str());
    let r = joined(a.as_str(), "\n");
    proof {
        reveal_strlit("\n");
    }
    assert(r@ =~= text@ + line(value@));
    r
}

fn push_opt_line(text: String, value: &Option<String>) -> (r: String)
    ensures
        r@ == text@ + opt_line(opt_text(*value)),
{
    match value {
        Some(v) => push_line(text, v.as_str()),
        None => {
            assert(text@ + Seq::<char>::empty() =~= text@);
            text
        },
    }
}

fn push_number_line(text: String, value: Option<u16>) -> (r: String)
    ensures
        r@ == text@ + number_line(value),
{
    match value {
        Some(n) => push_line(text, decimal_text(n as u64).as_str()),
        None => {
            assert(text@ + Seq::<char>::empty() =~= text@);
            text
        },
    }
}

/// The text a search looks through, as [`searchable_of`] says.
fn searchable(record: &TrackRecord) -> (r: String)
    ensures
        r@ == searchable_of(*record),
{
    let t = push_opt_line(String::new(), &record.artist);
    let t = push_opt_line(t, &record.title);
    let t = push_number_line(t, record.year);
    let t = push_line(t, record.bpm_text.as_str());
    let t = match record.key {
        Some(code) => push_line(t, camelot_text(code).as_str()),
        None => {
            assert(t@ + Seq::<char>::empty() =~= t@);
            t
        },
    };
    let t = push_opt_line(t, &record.label);
    let t = push_opt_line(t, &record.catalog_number);
    let t = push_opt_line(t, &record.release_title);
    let t = push_number_line(t, record.track_number);
    let t = push_line(t, record.path.as_str());
    assert(t@ =~= searchable_of(*record));
    t
}

/// Whether every word of a search is found in the text the search looks
/// through. A search of no words leaves every record in.
pub open spec fn matches_the_search(r: TrackRecord, words: Seq<Seq<char>>) -> bool {
    forall|i: int| 0 <= i < words.len() ==> occurs_in(searchable_of(r), #[trigger] words[i])
}

fn matches_words(record: &TrackRecord, words: &Vec<String>) -> (b: bool)
    ensures
        b == matches_the_search(*record, words@.map_values(|w: String| w@)),
{
    if words.len() == 0 {
        return true;
    }
    let text = searchable(record);
    let mut i: usize = 0;
    while i < words.len()
        invariant
            i <= words@.len(),
            text@ == searchable_of(*record),
            forall|k: int| 0 <= k < i ==> occurs_in(text@, #[trigger] words@[k]@),
        decreases words@.len() - i,
    {
        if !occurs(text.as_str(), words[i].as_str()) {
            assert(words@.map_values(|w: String| w@)[i as int] == words@[i as int]@);
            return false;
        }
        i = i + 1;
    }
    let ghost ws = words@.map_values(|w: String| w@);
    assert forall|k: int| 0 <= k < ws.len() implies occurs_in(searchable_of(*record), #[trigger] ws[k]) by {
        assert(ws[k] == words@[k]@);
    }
    true
}

/// The conditions the rows are narrowed by, one per field. Every condition
/// given must hold. Text that is empty or only spaces, an empty list of
/// keys, and an open end of a range place no condition, so the default
/// narrows nothing.
#[derive(Debug, Clone, PartialEq)]
pub struct Filters {
    /// Only tracks whose artist contains this text.
    pub artist: String,
    /// Only tracks whose title contains this text.
    pub title: String,
    /// Only tracks whose key is one of these.
    pub keys: Vec<Camelot>,
    /// Only tracks whose label contains this text.
    pub label: String,
    /// Only tracks whose year is at least this.
    pub year_from: Option<u16>,
    /// Only tracks whose year is at most this.
    pub year_to: Option<u16>,
    /// Only tracks whose tempo is at least this, as a whole number that
    /// orders tempos as [`TrackRecord::bpm_rank`] does.
    pub bpm_from: Option<i64>,
    /// Only tracks whose tempo is at most this, in the same numbers.
    pub bpm_to: Option<i64>,
    /// Only tracks whose file path contains this text.
    pub path: String,
}

impl Default for Filters {
    fn default() -> (f: Filters)
        ensures
            f.artist@.len() == 0,
            f.title@.len() == 0,
            f.keys@.len() == 0,
            f.label@.len() == 0,
            f.year_from is None,
            f.year_to is None,
            f.bpm_from is None,
            f.bpm_to is None,
            f.path@.len() == 0,
    {
        Filters {
            artist: String::new(),
            title: String::new(),
            keys: Vec::new(),
            label: String::new(),
            year_from: None,
            year_to: None,
            bpm_from: None,
            bpm_to: None,
            path: String::new(),
        }
    }
}

/// Whether the text condition `text` holds of a field with `value`: text
/// that is empty or only spaces places no condition.
pub open spec fn text_condition(text: Seq<char>, value: Option<Seq<char>>) -> bool {
    trim(text).len() > 0 ==> meets(value, text)
}

/// Whether `r` meets every condition `f` places. A track with no value in a
/// filtered field meets no condition on that field.
pub open spec fn passes_the_filters(f: Filters, r: TrackRecord) -> bool {
    &&& text_condition(f.artist@, opt_text(r.artist))
    &&& text_condition(f.title@, opt_text(r.title))
    &&& text_condition(f.label@, opt_text(r.label))
    &&& f.keys@.len() > 0 ==> (r.key matches Some(code) && f.keys@.contains(code))
    &&& (f.year_from is Some || f.year_to is Some) ==> (r.year matches Some(year) && (f.year_from matches Some(from) ==> year >= from) && (f.year_to matches Some(to) ==> year <= to))
    &&& f.bpm_from matches Some(from) ==> r.bpm_rank >= from
    &&& f.bpm_to matches Some(to) ==> r.bpm_rank <= to
    &&& text_condition(f.path@, Some(r.path@))
}

fn key_chosen(keys: &Vec<Camelot>, code: Camelot) -> (b: bool)
    ensures
        b == keys@.contains(code),
{
    let mut i: usize = 0;
    while i < keys.len()
        invariant
            i <= keys@.len(),
            forall|k: int| 0 <= k < i ==> keys@[k] != code,
        decreases keys@.len() - i,
    {
        if keys[i] == code {
            assert(keys@[i as int] == code);
            return true;
        }
        i = i + 1;
    }
    false
}

/// Whether `record` meets every condition `filters` places, as
/// [`passes_the_filters`] says.
fn passes(filters: &Filters, record: &TrackRecord) -> (b: bool)
    ensures
        b == passes_the_filters(*filters, *record),
{
    if a_condition(filters.artist.as_str()) && !contains(record.artist.as_ref(), filters.artist.as_str()) {
        return false;
    }
    if a_condition(filters.title.as_str()) && !contains(record.title.as_ref(), filters.title.as_str()) {
        return false;
    }
    if a_condition(filters.label.as_str()) && !contains(record.label.as_ref(), filters.label.as_str()) {
        return false;
    }
    if filters.keys.len() > 0 {
        let chosen = match record.key {
            Some(code) => key_chosen(&filters.keys, code),
            None => false,
        };
        if !chosen {
            return false;
        }
    }
    if filters.year_from.is_some() || filters.year_to.is_some() {
        let year = match record.year {
            Some(year) => year,
            None => {
                return false;
            },
        };
        if let Some(from) = filters.year_from {
            if year < from {
                return false;
            }
        }
        if let Some(to) = filters.year_to {
            if year > to {
                return false;
            }
        }
    }
    if let Some(from) = filters.bpm_from {
        if record.bpm_rank < from {
            return false;
        }
    }
    if let Some(to) = filters.bpm_to {
        if record.bpm_rank > to {
            return false;
        }
    }
    if a_condition(filters.path.as_str()) && !contains(Some(&record.path), filters.path.as_str()) {
        return false;
    }
    true
}



/// Whether the panel shows `r`: it meets every condition of `f` and every
/// word of the search `words`.
pub open spec fn shows(f: Filters, words: Seq<Seq<char>>, r: TrackRecord) -> bool {
    passes_the_filters(f, r) && matches_the_search(r, words)
}

/// The positions of `sorted` the panel shows, in the order of `sorted`.
pub open spec fn narrowed(
    records: Seq<TrackRecord>,
    sorted: Seq<usize>,
    f: Filters,
    words: Seq<Seq<char>>,
) -> Seq<usize>
    decreases sorted.len(),
{
    if sorted.len() == 0 {
        Seq::empty()
    } else {
        let rest = narrowed(records, sorted.drop_last(), f, words);
        if shows(f, words, records[sorted.last() as int]) {
            rest.push(sorted.last())
        } else {
            rest
        }
    }
}

/// One track as the panel shows it.
#[derive(Debug, Clone, PartialEq)]
pub struct LibraryRow {
    /// The track's content hash.
    pub hash: ContentHash,
    /// The file.
    pub path: String,
    /// The artist, if known.
    pub artist: Option<String>,
    /// The title, if known.
    pub title: Option<String>,
    /// The year, if known.
    pub year: Option<u16>,
    /// Whether the year is an estimate rather than a year some source
    /// states. The window writes `about` before such a year.
    pub year_is_approximate: bool,
    /// The title of the release the track came from, when known.
    pub release_title: Option<String>,
    /// The record label, when known.
    pub label: Option<String>,
    /// The label's catalog number, when known.
    pub catalog_number: Option<String>,
    /// The track's position on the release, when known.
    pub track_number: Option<u16>,
    /// Whether the artist and title were guessed from the file name.
    pub guessed: bool,
    /// The tempo with one decimal place.
    pub bpm_text: String,
    /// The length in frames.
    pub length: Samples,
    /// The length as minutes, seconds, and tenths.
    pub length_text: String,
    /// The track's Camelot code, if a key analyzer answered.
    pub camelot: Option<Camelot>,
    /// Whether the track mixes well with the reference key, and never when
    /// the track has no key or there is no reference.
    pub compatible: bool,
    /// Whether a track with this hash is in the mix.
    pub in_mix: bool,
    /// Whether this is the selected row.
    pub selected: bool,
}

/// The library as the panel shows it.
pub struct LibraryPanel {
    records: Vec<TrackRecord>,
    sorted: Vec<usize>,
    shown: Vec<usize>,
    search: String,
    sort: Sort,
    filters: Filters,
    reference: Option<Camelot>,
    selected: Option<ContentHash>,
    in_mix: Vec<ContentHash>,
}

/// The panel as the contracts speak of it.
pub struct PanelView {
    /// Every record, in the order they were read.
    pub records: Seq<TrackRecord>,
    /// Positions into `records` in the order of the sort.
    pub sorted: Seq<usize>,
    /// Positions into `records` for the rows shown now.
    pub shown: Seq<usize>,
    /// The search text as given.
    pub search: Seq<char>,
    /// The column the rows are sorted by, and which way.
    pub sort: Sort,
    /// The conditions the rows are narrowed by.
    pub filters: Filters,
    /// The key the rows are highlighted against.
    pub reference: Option<Camelot>,
    /// The hash of the selected track.
    pub selected: Option<Seq<u8>>,
    /// The hashes of the tracks in the mix.
    pub in_mix: Seq<Seq<u8>>,
}

impl View for LibraryPanel {
    type V = PanelView;

    closed spec fn view(&self) -> PanelView {
        PanelView {
            records: self.records@,
            sorted: self.sorted@,
            shown: self.shown@,
            search: self.search@,
            sort: self.sort,
            filters: self.filters,
            reference: self.reference,
            selected: match self.selected {
                Some(h) => Some(h@),
                None => None,
            },
            in_mix: self.in_mix@.map_values(|h: ContentHash| h@),
        }
    }
}

/// What a panel has to be: its records sorted by its sort, and the rows it
/// shows the sorted records that its filters and its search leave in.
pub open spec fn panel_wf(v: PanelView) -> bool {
    &&& sorted_by(v.records, v.sort, v.sorted)
    &&& v.shown == narrowed(v.records, v.sorted, v.filters, search_words(v.search))
}

/// Whether `records` holds a track with hash `hash`.
pub open spec fn holds_track(records: Seq<TrackRecord>, hash: Seq<u8>) -> bool {
    exists|i: int| 0 <= i < records.len() && #[trigger] records[i].hash@ == hash
}

/// The sort the panel starts with: by the artist, ascending.
pub open spec fn first_sort() -> Sort {
    Sort { column: Column::Artist, descending: false }
}

/// Whether `row` shows `r` in a panel `v`, highlighted against `v`'s key by
/// `compatible`.
pub open spec fn row_shows<F: Fn(Camelot, Camelot) -> bool>(
    row: LibraryRow,
    r: TrackRecord,
    v: PanelView,
    compatible: F,
) -> bool {
    &&& row.hash@ == r.hash@
    &&& row.path@ == r.path@
    &&& opt_text(row.artist) == opt_text(r.artist)
    &&& opt_text(row.title) == opt_text(r.title)
    &&& row.year == r.year
    &&& row.year_is_approximate == r.year_is_approximate
    &&& opt_text(row.release_title) == opt_text(r.release_title)
    &&& opt_text(row.label) == opt_text(r.label)
    &&& opt_text(row.catalog_number) == opt_text(r.catalog_number)
    &&& row.track_number == r.track_number
    &&& row.guessed == r.guessed
    &&& row.bpm_text@ == r.bpm_text@
    &&& row.length == r.length
    &&& row.length_text@ == r.length_text@
    &&& row.camelot == r.key
    &&& match (r.key, v.reference) {
        (Some(code), Some(reference)) => call_ensures(compatible, (code, reference), row.compatible),
        _ => !row.compatible,
    }
    &&& row.in_mix == v.in_mix.contains(r.hash@)
    &&& row.selected == (v.selected == Some(r.hash@))
}

fn copy_text(s: &Option<String>) -> (r: Option<String>)
    ensures
        opt_text(r) == opt_text(*s),
{
    match s {
        Some(t) => Some(t.clone()),
        None => None,
    }
}

fn copy_hash(h: &ContentHash) -> (r: ContentHash)
    ensures
        r@ == h@,
{
    ContentHash(h.0)
}

fn has_hash(hashes: &Vec<ContentHash>, hash: &ContentHash) -> (b: bool)
    ensures
        b == hashes@.map_values(|h: ContentHash| h@).contains(hash@),
{
    let ghost views = hashes@.map_values(|h: ContentHash| h@);
    let mut i: usize = 0;
    while i < hashes.len()
        invariant
            i <= hashes@.len(),
            views == hashes@.map_values(|h: ContentHash| h@),
            forall|k: int| 0 <= k < i ==> hashes@[k]@ != hash@,
        decreases hashes@.len() - i,
    {
        if hashes[i].same(hash) {
            assert(views[i as int] == hash@);
            return true;
        }
        i = i + 1;
    }
    proof {
        if views.contains(hash@) {
            let k = choose|k: int| 0 <= k < views.len() && #[trigger] views[k] == hash@;
            assert(hashes@[k]@ == hash@);
        }
    }
    false
}

impl LibraryPanel {
    /// Whether the panel is as a panel has to be.
    pub open spec fn wf(&self) -> bool {
        panel_wf(self@)
    }

    /// Works out which of the sorted records to show: the ones the filters
    /// and the search leave in, in the order the sort put them.
    fn narrow_the_rows(&mut self)
        requires
            sorted_by(old(self)@.records, old(self)@.sort, old(self)@.sorted),
        ensures
            final(self).wf(),
            final(self)@ == (PanelView { shown: final(self)@.shown, ..old(self)@ }),
    {
        let words = words_of(self.search.as_str());
        let ghost ws = words@.map_values(|w: String| w@);
        let mut shown: Vec<usize> = Vec::new();
        let mut i: usize = 0;
        let n = self.sorted.len();
        while i < n
            invariant
                i <= n == self.sorted@.len(),
                ws == search_words(self.search@),
                ws == words@.map_values(|w: String| w@),
                sorted_by(self.records@, self.sort, self.sorted@),
                shown@ == narrowed(self.records@, self.sorted@.take(i as int), self.filters, ws),
            decreases n - i,
        {
            let at = self.sorted[i];
            proof {
                assert(self.sorted@.take(i + 1).drop_last() =~= self.sorted@.take(i as int));
                assert(self.sorted@.take(i + 1).last() == at);
            }
            let record = &self.records[at];
            if passes(&self.filters, record) && matches_words(record, &words) {
                shown.push(at);
            }
            i = i + 1;
        }
        assert(self.sorted@.take(n as int) =~= self.sorted@);
        self.shown = shown;
    }

    /// A panel over the library's records, with no search, no reference
    /// key, no selection, and nothing in the mix, sorted by the artist,
    /// ascending. A panel over no records shows no rows.
    pub fn new(records: Vec<TrackRecord>) -> (p: LibraryPanel)
        ensures
            p.wf(),
            p@.records == records@,
            p@.search.len() == 0,
            p@.sort == first_sort(),
            p@.filters.artist@.len() == 0,
            p@.filters.title@.len() == 0,
            p@.filters.keys@.len() == 0,
            p@.filters.label@.len() == 0,
            p@.filters.path@.len() == 0,
            p@.filters.year_from is None && p@.filters.year_to is None,
            p@.filters.bpm_from is None && p@.filters.bpm_to is None,
            p@.reference is None,
            p@.selected is None,
            p@.in_mix.len() == 0,
    {
        let sort = Sort { column: Column::Artist, descending: false };
        let sorted = sort_the_records(&records, sort);
        let mut panel = LibraryPanel {
            records,
            sorted,
            shown: Vec::new(),
            search: String::new(),
            sort,
            filters: Filters::default(),
            reference: None,
            selected: None,
            in_mix: Vec::new(),
        };
        panel.narrow_the_rows();
        proof {
            assert(panel@.in_mix =~= Seq::<Seq<u8>>::empty());
        }
        panel
    }

    /// Replaces the records with the library as it now stands, keeping the
    /// search, the filters, the sort, and the tracks marked as in the mix.
    /// The selection is the track rather than the row: a track whose record
    /// is among the new ones stays selected, and a track the library no
    /// longer contains is selected no more, and the key the rows are
    /// highlighted against goes with it.
    pub fn set_records(&mut self, records: Vec<TrackRecord>)
        requires
            old(self).wf(),
        ensures
            final(self).wf(),
            final(self)@.records == records@,
            final(self)@.search == old(self)@.search,
            final(self)@.sort == old(self)@.sort,
            final(self)@.filters == old(self)@.filters,
            final(self)@.in_mix == old(self)@.in_mix,
            match old(self)@.selected {
                Some(hash) => if holds_track(records@, hash) {
                    final(self)@.selected == old(self)@.selected && final(self)@.reference == old(self)@.reference
                } else {
                    final(self)@.selected is None && final(self)@.reference is None
                },
                None => final(self)@.selected is None && final(self)@.reference == old(self)@.reference,
            },
    {
        self.records = records;
        let mut gone = false;
        if let Some(hash) = &self.selected {
            let mut found = false;
            let mut i: usize = 0;
            while i < self.records.len()
                invariant
                    i <= self.records@.len(),
                    !found ==> forall|k: int| 0 <= k < i ==> self.records@[k].hash@ != hash@,
                    found ==> holds_track(self.records@, hash@),
                decreases self.records@.len() - i,
            {
                if self.records[i].hash.same(hash) {
                    found = true;
                }
                i = i + 1;
            }
            gone = !found;
        }
        if gone {
            self.selected = None;
            self.reference = None;
        }
        self.sorted = sort_the_records(&self.records, self.sort);
        self.narrow_the_rows();
    }

    /// Sets the search text. Text that is empty or only spaces places no
    /// condition. Anything else is split into words at spaces, and a track
    /// matches when every word is found, without regard to case, among the
    /// values [`searchable_of`] gathers.
    pub fn set_search(&mut self, text: &str)
        requires
            old(self).wf(),
        ensures
            final(self).wf(),
            final(self)@ == (PanelView { search: text@, shown: final(self)@.shown, ..old(self)@ }),
    {
        self.search = owned(text);
        self.narrow_the_rows();
    }

    /// The search text as given.
    pub fn search(&self) -> (r: &str)
        ensures
            r@ == self@.search,
    {
        self.search.as_str()
    }

    /// Sorts the rows by `column`, as a click on its heading does: a column
    /// other than the sorted one sorts ascending, and the sorted column
    /// reverses the order.
    pub fn click_heading(&mut self, column: Column)
        requires
            old(self).wf(),
        ensures
            final(self).wf(),
            final(self)@ == (PanelView {
                sort: sort_after_click(old(self)@.sort, column),
                sorted: final(self)@.sorted,
                shown: final(self)@.shown,
                ..old(self)@
            }),
    {
        self.sort = clicked(self.sort, column);
        self.sorted = sort_the_records(&self.records, self.sort);
        self.narrow_the_rows();
    }

    /// The column the rows are sorted by, and which way.
    pub fn sort(&self) -> (r: Sort)
        ensures
            r == self@.sort,
    {
        self.sort
    }

    /// Sets the conditions the rows are narrowed by. Setting filters that
    /// leave the selected track out keeps the selection, as a search does.
    pub fn set_filters(&mut self, filters: Filters)
        requires
            old(self).wf(),
        ensures
            final(self).wf(),
            final(self)@ == (PanelView { filters, shown: final(self)@.shown, ..old(self)@ }),
    {
        self.filters = filters;
        self.narrow_the_rows();
    }

    /// The conditions the rows are narrowed by.
    pub fn filters(&self) -> (r: &Filters)
        ensures
            *r == self@.filters,
    {
        &self.filters
    }

    /// Sets the key the rows are highlighted against, as the window does
    /// when a track is selected on the timeline, without changing the
    /// panel's own selection.
    pub fn set_reference(&mut self, key: Option<Camelot>)
        ensures
            final(self)@ == (PanelView { reference: key, ..old(self)@ }),
    {
        self.reference = key;
    }

    /// The key the rows are highlighted against.
    pub fn reference(&self) -> (r: Option<Camelot>)
        ensures
            r == self@.reference,
    {
        self.reference
    }

    /// Tells the panel which tracks are in the mix, by their hashes.
    pub fn set_mix(&mut self, hashes: Vec<ContentHash>)
        ensures
            final(self)@ == (PanelView {
                in_mix: hashes@.map_values(|h: ContentHash| h@),
                ..old(self)@
            }),
    {
        self.in_mix = hashes;
    }

    /// Selects the row at `row` among the rows shown, and makes its key the
    /// reference, or clears the reference when it has no key. A row past the
    /// last one changes nothing. The selection is the track, not the row.
    pub fn select(&mut self, row: usize)
        requires
            old(self).wf(),
        ensures
            final(self).wf(),
            row >= old(self)@.shown.len() ==> final(self)@ == old(self)@,
            row < old(self)@.shown.len() ==> final(self)@ == (PanelView {
                selected: Some(old(self)@.records[old(self)@.shown[row as int] as int].hash@),
                reference: old(self)@.records[old(self)@.shown[row as int] as int].key,
                ..old(self)@
            }),
    {
        if row >= self.shown.len() {
            return;
        }
        proof {
            let at = self.shown@[row as int];
            lemma_narrowed_within(self.records@, self.sorted@, self.filters, search_words(self.search@));
            assert(self.shown@.contains(at));
        }
        let at = self.shown[row];
        let hash = copy_hash(&self.records[at].hash);
        let key = self.records[at].key;
        self.selected = Some(hash);
        self.reference = key;
    }

    /// The selected row among the rows shown, if the selected track is among
    /// them.
    pub fn selected(&self) -> (r: Option<usize>)
        requires
            self.wf(),
        ensures
            match r {
                Some(p) => p < self@.shown.len() && self@.selected == Some(self@.records[self@.shown[p as int] as int].hash@)
                    && forall|q: int| 0 <= q < p ==> Some(#[trigger] self@.records[self@.shown[q] as int].hash@) != self@.selected,
                None => forall|q: int| 0 <= q < self@.shown.len() ==> Some(#[trigger] self@.records[self@.shown[q] as int].hash@) != self@.selected,
            },
    {
        proof {
            lemma_narrowed_within(self.records@, self.sorted@, self.filters, search_words(self.search@));
        }
        let hash = match &self.selected {
            Some(hash) => hash,
            None => {
                return None;
            },
        };
        let mut p: usize = 0;
        while p < self.shown.len()
            invariant
                p <= self.shown@.len(),
                self.selected == Some(*hash),
                forall|k: int| 0 <= k < self.shown@.len() ==> #[trigger] self.shown@[k] < self.records@.len(),
                forall|q: int| 0 <= q < p ==> Some(#[trigger] self@.records[self@.shown[q] as int].hash@) != self@.selected,
            decreases self.shown@.len() - p,
        {
            assert(self.shown@[p as int] < self.records@.len());
            if self.records[self.shown[p]].hash.same(hash) {
                return Some(p);
            }
            p = p + 1;
        }
        None
    }

    /// The rows to paint: every track that the filters and the search leave
    /// in, in the order of the sort, each highlighted where its key mixes
    /// well with the reference key by `compatible`.
    pub fn rows<F: Fn(Camelot, Camelot) -> bool>(&self, compatible: &F) -> (rows: Vec<LibraryRow>)
        requires
            self.wf(),
            forall|a: Camelot, b: Camelot| compatible.requires((a, b)),
        ensures
            rows@.len() == self@.shown.len(),
            forall|k: int| 0 <= k < rows@.len() ==> row_shows(#[trigger] rows@[k], self@.records[self@.shown[k] as int], self@, *compatible),
    {
        proof {
            lemma_narrowed_within(self.records@, self.sorted@, self.filters, search_words(self.search@));
        }
        let mut rows: Vec<LibraryRow> = Vec::new();
        let mut k: usize = 0;
        while k < self.shown.len()
            invariant
                k <= self.shown@.len(),
                rows@.len() == k,
                forall|a: Camelot, b: Camelot| compatible.requires((a, b)),
                forall|j: int| 0 <= j < self.shown@.len() ==> #[trigger] self.shown@[j] < self.records@.len(),
                forall|j: int| 0 <= j < k ==> row_shows(#[trigger] rows@[j], self@.records[self@.shown[j] as int], self@, *compatible),
            decreases self.shown@.len() - k,
        {
            assert(self.shown@[k as int] < self.records@.len());
            let record = &self.records[self.shown[k]];
            let code = record.key;
            let fits = match (code, self.reference) {
                (Some(code), Some(reference)) => compatible(code, reference),
                _ => false,
            };
            let selected = match &self.selected {
                Some(hash) => record.hash.same(hash),
                None => false,
            };
            let row = LibraryRow {
                hash: copy_hash(&record.hash),
                path: record.path.clone(),
                artist: copy_text(&record.artist),
                title: copy_text(&record.title),
                year: record.year,
                year_is_approximate: record.year_is_approximate,
                release_title: copy_text(&record.release_title),
                label: copy_text(&record.label),
                catalog_number: copy_text(&record.catalog_number),
                track_number: record.track_number,
                guessed: record.guessed,
                bpm_text: record.bpm_text.clone(),
                length: record.length,
                length_text: record.length_text.clone(),
                camelot: code,
                compatible: fits,
                in_mix: has_hash(&self.in_mix, &record.hash),
                selected,
            };
            rows.push(row);
            k = k + 1;
        }
        rows
    }
}

/// Every position `narrowed` keeps is a position of `sorted`.
pub proof fn lemma_narrowed_within(
    records: Seq<TrackRecord>,
    sorted: Seq<usize>,
    f: Filters,
    words: Seq<Seq<char>>,
)
    requires
        forall|p: int| 0 <= p < sorted.len() ==> #[trigger] sorted[p] < records.len(),
    ensures
        forall|k: int| 0 <= k < narrowed(records, sorted, f, words).len() ==> sorted.contains(#[trigger] narrowed(records, sorted, f, words)[k]),
        forall|k: int| 0 <= k < narrowed(records, sorted, f, words).len() ==> #[trigger] narrowed(records, sorted, f, words)[k] < records.len(),
    decreases sorted.len(),
{
    if sorted.len() > 0 {
        let rest = sorted.drop_last();
        assert forall|p: int| 0 <= p < rest.len() implies #[trigger] rest[p] < records.len() by {
            assert(rest[p] == sorted[p]);
        }
        lemma_narrowed_within(records, rest, f, words);
        let n = narrowed(records, sorted, f, words);
        let m = narrowed(records, rest, f, words);
        assert forall|k: int| 0 <= k < n.len() implies sorted.contains(#[trigger] n[k]) by {
            if k < m.len() {
                let j = choose|j: int| 0 <= j < rest.len() && rest[j] == m[k];
                assert(sorted[j] == m[k]);
            } else {
                assert(sorted[sorted.len() - 1] == n[k]);
            }
        }
        assert forall|k: int| 0 <= k < n.len() implies #[trigger] n[k] < records.len() by {
            if k < m.len() {
                assert(n[k] == m[k]);
            } else {
                assert(n[k] == sorted.last());
            }
        }
    }
}



/// What the panel writes in the artist cell of a track the library has no
/// artist for.
pub const UNKNOWN_ARTIST: &'static str = "Unknown";

/// What the panel writes in the key cell of a track no key analyzer
/// answered for.
pub const NO_KEY: &'static str = "no key";

/// What the panel writes in the year cell of a track with no year.
pub const NO_YEAR: &'static str = "no year";

/// The year as the window writes it: the year on its own, `about` and the
/// year when the year is an estimate, or `no year`.
pub open spec fn year_text_of(year: Option<u16>, approximate: bool) -> Seq<char> {
    match year {
        Some(y) => if approximate {
            "about "@ + decimal(y as nat)
        } else {
            decimal(y as nat)
        },
        None => NO_YEAR@,
    }
}

/// A text the library may not have, or empty text.
pub open spec fn or_empty(s: Option<String>) -> Seq<char> {
    match s {
        Some(s) => s@,
        None => Seq::empty(),
    }
}

/// The text the window draws in the cell of `row` under `column`.
pub open spec fn cell_of(row: LibraryRow, column: Column) -> Seq<char> {
    match column {
        Column::Artist => match row.artist {
            Some(a) => a@,
            None => UNKNOWN_ARTIST@,
        },
        Column::Title => match row.title {
            Some(t) => t@,
            None => match file_name_of(row.path@) {
                Some(name) => name,
                None => Seq::empty(),
            },
        },
        Column::Year => year_text_of(row.year, row.year_is_approximate),
        Column::Bpm => row.bpm_text@,
        Column::Key => match row.camelot {
            Some(code) => camelot_text_of(code),
            None => NO_KEY@,
        },
        Column::Label => or_empty(row.label),
        Column::CatalogNumber => or_empty(row.catalog_number),
        Column::Release => or_empty(row.release_title),
        Column::TrackNumber => match row.track_number {
            Some(n) => decimal(n as nat),
            None => Seq::empty(),
        },
        Column::Duration => row.length_text@,
    }
}

fn text_or_empty(s: &Option<String>) -> (r: String)
    ensures
        r@ == or_empty(*s),
{
    match s {
        Some(t) => t.clone(),
        None => String::new(),
    }
}

impl LibraryRow {
    /// The year as the window writes it: the year on its own, `about` and
    /// the year when the year is an estimate, or `no year`.
    pub fn year_text(&self) -> (r: String)
        ensures
            r@ == year_text_of(self.year, self.year_is_approximate),
    {
        match self.year {
            Some(year) => {
                let digits = decimal_text(year as u64);
                if self.year_is_approximate {
                    joined("about ", digits.as_str())
                } else {
                    digits
                }
            },
            None => owned(NO_YEAR),
        }
    }

    /// The name of the track's file, which stands in the title cell for a
    /// track the library has no title for, and empty text for a path that
    /// ends in no file name.
    pub fn file_name(&self) -> (r: String)
        ensures
            r@ == match file_name_of(self.path@) {
                Some(name) => name,
                None => Seq::empty(),
            },
    {
        match path_file_name(self.path.as_str()) {
            Some(name) => name,
            None => String::new(),
        }
    }

    /// The text the window draws in one cell of the row. The artist is
    /// `Unknown` when the track has none, and the title is the file's name
    /// when the track has none. The year is [`year_text`](LibraryRow::year_text).
    /// The tempo has one decimal place. The key is the Camelot code, or
    /// `no key`. The length is minutes, seconds, and tenths. The label, the
    /// catalog number, the release title, and the track number are empty
    /// text when the library has none.
    pub fn cell(&self, column: Column) -> (r: String)
        ensures
            r@ == cell_of(*self, column),
    {
        match column {
            Column::Artist => match &self.artist {
                Some(a) => a.clone(),
                None => owned(UNKNOWN_ARTIST),
            },
            Column::Title => match &self.title {
                Some(t) => t.clone(),
                None => self.file_name(),
            },
            Column::Year => self.year_text(),
            Column::Bpm => self.bpm_text.clone(),
            Column::Key => match self.camelot {
                Some(code) => camelot_text(code),
                None => owned(NO_KEY),
            },
            Column::Label => text_or_empty(&self.label),
            Column::CatalogNumber => text_or_empty(&self.catalog_number),
            Column::Release => text_or_empty(&self.release_title),
            Column::TrackNumber => match self.track_number {
                Some(n) => decimal_text(n as u64),
                None => String::new(),
            },
            Column::Duration => self.length_text.clone(),
        }
    }
}

/// Rows with no value in the sorted column come after every row with one,
/// whichever way the sort runs.
pub proof fn tracks_with_no_value_come_last(records: Seq<TrackRecord>, sort: Sort, s: Seq<usize>, p: int, q: int)
    requires
        sorted_by(records, sort, s),
        0 <= p < q < s.len(),
    ensures
        !(sort_key(records[s[p] as int], sort.column) is Missing && !(sort_key(records[s[q] as int], sort.column) is Missing)),
{
    assert(comes_before(records, sort, s[p] as int, s[q] as int));
}

/// Rows that tie on the sorted column keep the order of the artist
/// ascending, whichever way the sort runs, with a missing artist after
/// every present one.
pub proof fn ties_keep_the_artist_order(records: Seq<TrackRecord>, sort: Sort, s: Seq<usize>, p: int, q: int)
    requires
        sorted_by(records, sort, s),
        0 <= p < q < s.len(),
        ordered(sort_key(records[s[p] as int], sort.column), sort_key(records[s[q] as int], sort.column), sort.descending) == Order::Equal,
    ensures
        ordered(text_key(records[s[p] as int].artist), text_key(records[s[q] as int].artist), false) != Order::Greater,
{
    assert(comes_before(records, sort, s[p] as int, s[q] as int));
}

/// A sort puts every record in a row of its own: no position is taken
/// twice.
pub proof fn every_record_is_sorted_once(records: Seq<TrackRecord>, sort: Sort, s: Seq<usize>, p: int, q: int)
    requires
        sorted_by(records, sort, s),
        0 <= p < q < s.len(),
    ensures
        s[p] != s[q],
{
    assert(comes_before(records, sort, s[p] as int, s[q] as int));
    if s[p] == s[q] {
        lemma_same_is_level(records[s[p] as int], sort);
    }
}

/// The panel shows exactly the sorted records that its filters and its
/// search leave in, in the order of the sort, with no limit on the number.
pub proof fn every_match_is_shown_in_sorted_order(
    records: Seq<TrackRecord>,
    sorted: Seq<usize>,
    f: Filters,
    words: Seq<Seq<char>>,
)
    ensures
        forall|k: int| 0 <= k < narrowed(records, sorted, f, words).len() ==> shows(f, words, records[#[trigger] narrowed(records, sorted, f, words)[k] as int]),
        forall|j: int| 0 <= j < sorted.len() && shows(f, words, records[sorted[j] as int]) ==> narrowed(records, sorted, f, words).contains(#[trigger] sorted[j]),
        narrowed(records, sorted, f, words).len() <= sorted.len(),
    decreases sorted.len(),
{
    if sorted.len() > 0 {
        let rest = sorted.drop_last();
        every_match_is_shown_in_sorted_order(records, rest, f, words);
        let n = narrowed(records, sorted, f, words);
        let m = narrowed(records, rest, f, words);
        assert forall|k: int| 0 <= k < n.len() implies shows(f, words, records[#[trigger] n[k] as int]) by {
            if k < m.len() {
                assert(n[k] == m[k]);
            }
        }
        assert forall|j: int| 0 <= j < sorted.len() && shows(f, words, records[sorted[j] as int]) implies n.contains(#[trigger] sorted[j]) by {
            if j < rest.len() {
                assert(rest[j] == sorted[j]);
                assert(m.contains(rest[j]));
                let k = choose|k: int| 0 <= k < m.len() && m[k] == rest[j];
                assert(n[k] == m[k]);
            } else {
                assert(n[n.len() - 1] == sorted[j]);
            }
        }
    }
}

/// Filters that place no condition, as the default ones, narrow nothing:
/// empty texts, no keys, and open ranges. A search of no words leaves every
/// record in.
pub proof fn the_default_filters_narrow_nothing(f: Filters, r: TrackRecord)
    requires
        f.artist@.len() == 0,
        f.title@.len() == 0,
        f.label@.len() == 0,
        f.path@.len() == 0,
        f.keys@.len() == 0,
        f.year_from is None && f.year_to is None,
        f.bpm_from is None && f.bpm_to is None,
    ensures
        passes_the_filters(f, r),
        matches_the_search(r, Seq::empty()),
{
    assert(trim(Seq::<char>::empty()) =~= Seq::<char>::empty());
    assert(f.artist@ =~= Seq::<char>::empty());
    assert(f.title@ =~= Seq::<char>::empty());
    assert(f.label@ =~= Seq::<char>::empty());
    assert(f.path@ =~= Seq::<char>::empty());
}


/// A click on the sorted column's heading reverses the sort, and a second
/// click puts it back; and reversing a sort reverses how any two tracks that
/// both have a value in the column compare by it.
pub proof fn clicking_the_sorted_heading_reverses_the_order(sort: Sort, a: SortKey, b: SortKey)
    requires
        !(a is Missing),
        !(b is Missing),
    ensures
        sort_after_click(sort, sort.column).descending == !sort.descending,
        sort_after_click(sort_after_click(sort, sort.column), sort.column) == sort,
        ordered(a, b, true) == flip(ordered(a, b, false)),
{
}


/// A text column sorts without regard to case: the key of a value present in
/// the artist, title, label, catalog number or release column is that value
/// in lowercase, and a track with no value in the column has no key.
pub proof fn text_columns_sort_by_the_lowercase_value(r: TrackRecord)
    ensures
        r.artist matches Some(a) ==> sort_key(r, Column::Artist) == SortKey::Text(lowercase_of(a@)),
        r.title matches Some(t) ==> sort_key(r, Column::Title) == SortKey::Text(lowercase_of(t@)),
        r.label matches Some(l) ==> sort_key(r, Column::Label) == SortKey::Text(lowercase_of(l@)),
        r.catalog_number matches Some(c) ==> sort_key(r, Column::CatalogNumber) == SortKey::Text(
            lowercase_of(c@),
        ),
        r.release_title matches Some(t) ==> sort_key(r, Column::Release) == SortKey::Text(
            lowercase_of(t@),
        ),
        r.artist is None ==> sort_key(r, Column::Artist) is Missing,
        r.title is None ==> sort_key(r, Column::Title) is Missing,
        r.label is None ==> sort_key(r, Column::Label) is Missing,
        r.catalog_number is None ==> sort_key(r, Column::CatalogNumber) is Missing,
        r.release_title is None ==> sort_key(r, Column::Release) is Missing,
{
}

/// A number column sorts by the number: the year, the tempo's rank, the
/// place on the Camelot wheel (two steps a number and one more for `B`),
/// the track number and the length in frames; a track with no year, key or
/// track number has no key in that column.
pub proof fn number_columns_sort_by_their_number(r: TrackRecord)
    ensures
        r.year matches Some(y) ==> sort_key(r, Column::Year) == SortKey::Number(y as int),
        r.year is None ==> sort_key(r, Column::Year) is Missing,
        sort_key(r, Column::Bpm) == SortKey::Number(r.bpm_rank as int),
        r.key matches Some(code) ==> sort_key(r, Column::Key) == SortKey::Number(
            code.number * 2 + if code.letter == Letter::B {
                1int
            } else {
                0int
            },
        ),
        r.key is None ==> sort_key(r, Column::Key) is Missing,
        r.track_number matches Some(n) ==> sort_key(r, Column::TrackNumber) == SortKey::Number(
            n as int,
        ),
        r.track_number is None ==> sort_key(r, Column::TrackNumber) is Missing,
        sort_key(r, Column::Duration) == SortKey::Number(r.length.0 as int),
{
}

/// Two tracks compare by their artists as those artists compare in
/// lowercase, code point by code point, ascending or the other way round;
/// so artists that differ only in case tie, and `deadmau5` comes before
/// `Eric Prydz` in an ascending sort because `d` comes before `e`.
pub proof fn artists_compare_without_regard_to_case(
    r1: TrackRecord,
    r2: TrackRecord,
    descending: bool,
)
    requires
        r1.artist is Some,
        r2.artist is Some,
    ensures
        ({
            let a = lowercase_of(r1.artist->0@);
            let b = lowercase_of(r2.artist->0@);
            &&& ordered(sort_key(r1, Column::Artist), sort_key(r2, Column::Artist), false)
                == text_order(a, b)
            &&& ordered(sort_key(r1, Column::Artist), sort_key(r2, Column::Artist), true) == flip(
                text_order(a, b),
            )
            &&& (a == b ==> ordered(
                sort_key(r1, Column::Artist),
                sort_key(r2, Column::Artist),
                descending,
            ) == Order::Equal)
        }),
{
    lemma_text_order_total();
}

proof fn lemma_occurs_within(front: Seq<char>, middle: Seq<char>, back: Seq<char>, w: Seq<char>)
    requires
        occurs_in(middle, w),
    ensures
        occurs_in(front + middle + back, w),
{
    let at = choose|at: int| occurs_at(middle, w, at);
    let whole = front + middle + back;
    assert(whole.subrange(front.len() + at, front.len() + at + w.len()) =~= middle.subrange(
        at,
        at + w.len(),
    ));
    assert(occurs_at(whole, w, front.len() + at));
}

proof fn lemma_line_found(front: Seq<char>, v: Seq<char>, back: Seq<char>, w: Seq<char>)
    requires
        occurs_in(lowercase_of(v), w),
    ensures
        occurs_in(front + line(v) + back, w),
{
    lemma_occurs_within(Seq::empty(), lowercase_of(v), seq!['\n'], w);
    assert(Seq::<char>::empty() + lowercase_of(v) + seq!['\n'] =~= line(v));
    lemma_occurs_within(front, line(v), back, w);
}

/// The line of a Camelot code a track may not have.
pub open spec fn key_line(key: Option<Camelot>) -> Seq<char> {
    match key {
        Some(code) => line(camelot_text_of(code)),
        None => Seq::empty(),
    }
}

proof fn lemma_searchable_parts(r: TrackRecord)
    ensures
        searchable_of(r) == opt_line(opt_text(r.artist)) + opt_line(opt_text(r.title)) + number_line(r.year) + line(r.bpm_text@) + key_line(r.key) + opt_line(opt_text(r.label)) + opt_line(opt_text(r.catalog_number)) + opt_line(opt_text(r.release_title)) + number_line(r.track_number) + line(r.path@),
{
}

proof fn lemma_found_in_artist(r: TrackRecord, w: Seq<char>)
    ensures
        (r.artist matches Some(v) && occurs_in(lowercase_of(v@), w)) ==> occurs_in(searchable_of(r), w),
{
    if let Some(v) = r.artist {
        if occurs_in(lowercase_of(v@), w) {
            lemma_searchable_parts(r);
            lemma_line_found(Seq::<char>::empty(), v@, opt_line(opt_text(r.title)) + number_line(r.year) + line(r.bpm_text@) + key_line(r.key) + opt_line(opt_text(r.label)) + opt_line(opt_text(r.catalog_number)) + opt_line(opt_text(r.release_title)) + number_line(r.track_number) + line(r.path@), w);
            assert((Seq::<char>::empty()) + line(v@) + (opt_line(opt_text(r.title)) + number_line(r.year) + line(r.bpm_text@) + key_line(r.key) + opt_line(opt_text(r.label)) + opt_line(opt_text(r.catalog_number)) + opt_line(opt_text(r.release_title)) + number_line(r.track_number) + line(r.path@)) =~= searchable_of(r));
        }
    }
}

proof fn lemma_found_in_title(r: TrackRecord, w: Seq<char>)
    ensures
        (r.title matches Some(v) && occurs_in(lowercase_of(v@), w)) ==> occurs_in(searchable_of(r), w),
{
    if let Some(v) = r.title {
        if occurs_in(lowercase_of(v@), w) {
            lemma_searchable_parts(r);
            lemma_line_found(opt_line(opt_text(r.artist)), v@, number_line(r.year) + line(r.bpm_text@) + key_line(r.key) + opt_line(opt_text(r.label)) + opt_line(opt_text(r.catalog_number)) + opt_line(opt_text(r.release_title)) + number_line(r.track_number) + line(r.path@), w);
            assert((opt_line(opt_text(r.artist))) + line(v@) + (number_line(r.year) + line(r.bpm_text@) + key_line(r.key) + opt_line(opt_text(r.label)) + opt_line(opt_text(r.catalog_number)) + opt_line(opt_text(r.release_title)) + number_line(r.track_number) + line(r.path@)) =~= searchable_of(r));
        }
    }
}

proof fn lemma_found_in_label(r: TrackRecord, w: Seq<char>)
    ensures
        (r.label matches Some(v) && occurs_in(lowercase_of(v@), w)) ==> occurs_in(searchable_of(r), w),
{
    if let Some(v) = r.label {
        if occurs_in(lowercase_of(v@), w) {
            lemma_searchable_parts(r);
            lemma_line_found(opt_line(opt_text(r.artist)) + opt_line(opt_text(r.title)) + number_line(r.year) + line(r.bpm_text@) + key_line(r.key), v@, opt_line(opt_text(r.catalog_number)) + opt_line(opt_text(r.release_title)) + number_line(r.track_number) + line(r.path@), w);
            assert((opt_line(opt_text(r.artist)) + opt_line(opt_text(r.title)) + number_line(r.year) + line(r.bpm_text@) + key_line(r.key)) + line(v@) + (opt_line(opt_text(r.catalog_number)) + opt_line(opt_text(r.release_title)) + number_line(r.track_number) + line(r.path@)) =~= searchable_of(r));
        }
    }
}

proof fn lemma_found_in_catalog_number(r: TrackRecord, w: Seq<char>)
    ensures
        (r.catalog_number matches Some(v) && occurs_in(lowercase_of(v@), w)) ==> occurs_in(searchable_of(r), w),
{
    if let Some(v) = r.catalog_number {
        if occurs_in(lowercase_of(v@), w) {
            lemma_searchable_parts(r);
            lemma_line_found(opt_line(opt_text(r.artist)) + opt_line(opt_text(r.title)) + number_line(r.year) + line(r.bpm_text@) + key_line(r.key) + opt_line(opt_text(r.label)), v@, opt_line(opt_text(r.release_title)) + number_line(r.track_number) + line(r.path@), w);
            assert((opt_line(opt_text(r.artist)) + opt_line(opt_text(r.title)) + number_line(r.year) + line(r.bpm_text@) + key_line(r.key) + opt_line(opt_text(r.label))) + line(v@) + (opt_line(opt_text(r.release_title)) + number_line(r.track_number) + line(r.path@)) =~= searchable_of(r));
        }
    }
}

proof fn lemma_found_in_release_title(r: TrackRecord, w: Seq<char>)
    ensures
        (r.release_title matches Some(v) && occurs_in(lowercase_of(v@), w)) ==> occurs_in(searchable_of(r), w),
{
    if let Some(v) = r.release_title {
        if occurs_in(lowercase_of(v@), w) {
            lemma_searchable_parts(r);
            lemma_line_found(opt_line(opt_text(r.artist)) + opt_line(opt_text(r.title)) + number_line(r.year) + line(r.bpm_text@) + key_line(r.key) + opt_line(opt_text(r.label)) + opt_line(opt_text(r.catalog_number)), v@, number_line(r.track_number) + line(r.path@), w);
            assert((opt_line(opt_text(r.artist)) + opt_line(opt_text(r.title)) + number_line(r.year) + line(r.bpm_text@) + key_line(r.key) + opt_line(opt_text(r.label)) + opt_line(opt_text(r.catalog_number))) + line(v@) + (number_line(r.track_number) + line(r.path@)) =~= searchable_of(r));
        }
    }
}

proof fn lemma_found_in_path(r: TrackRecord, w: Seq<char>)
    ensures
        occurs_in(lowercase_of(r.path@), w) ==> occurs_in(searchable_of(r), w),
{
    if occurs_in(lowercase_of(r.path@), w) {
        lemma_searchable_parts(r);
        lemma_line_found(opt_line(opt_text(r.artist)) + opt_line(opt_text(r.title)) + number_line(r.year) + line(r.bpm_text@) + key_line(r.key) + opt_line(opt_text(r.label)) + opt_line(opt_text(r.catalog_number)) + opt_line(opt_text(r.release_title)) + number_line(r.track_number), r.path@, Seq::<char>::empty(), w);
        assert((opt_line(opt_text(r.artist)) + opt_line(opt_text(r.title)) + number_line(r.year) + line(r.bpm_text@) + key_line(r.key) + opt_line(opt_text(r.label)) + opt_line(opt_text(r.catalog_number)) + opt_line(opt_text(r.release_title)) + number_line(r.track_number)) + line(r.path@) + Seq::<char>::empty() =~= searchable_of(r));
    }
}

proof fn lemma_found_in_year(r: TrackRecord, w: Seq<char>)
    ensures
        (r.year is Some && occurs_in(lowercase_of(decimal(r.year->0 as nat)), w)) ==> occurs_in(searchable_of(r), w),
{
    if r.year is Some && occurs_in(lowercase_of(decimal(r.year->0 as nat)), w) {
        lemma_searchable_parts(r);
        lemma_line_found(opt_line(opt_text(r.artist)) + opt_line(opt_text(r.title)), decimal(r.year->0 as nat), line(r.bpm_text@) + key_line(r.key) + opt_line(opt_text(r.label)) + opt_line(opt_text(r.catalog_number)) + opt_line(opt_text(r.release_title)) + number_line(r.track_number) + line(r.path@), w);
        assert((opt_line(opt_text(r.artist)) + opt_line(opt_text(r.title))) + line(decimal(r.year->0 as nat)) + (line(r.bpm_text@) + key_line(r.key) + opt_line(opt_text(r.label)) + opt_line(opt_text(r.catalog_number)) + opt_line(opt_text(r.release_title)) + number_line(r.track_number) + line(r.path@)) =~= searchable_of(r));
    }
}

proof fn lemma_found_in_tempo(r: TrackRecord, w: Seq<char>)
    ensures
        (true && occurs_in(lowercase_of(r.bpm_text@), w)) ==> occurs_in(searchable_of(r), w),
{
    if true && occurs_in(lowercase_of(r.bpm_text@), w) {
        lemma_searchable_parts(r);
        lemma_line_found(opt_line(opt_text(r.artist)) + opt_line(opt_text(r.title)) + number_line(r.year), r.bpm_text@, key_line(r.key) + opt_line(opt_text(r.label)) + opt_line(opt_text(r.catalog_number)) + opt_line(opt_text(r.release_title)) + number_line(r.track_number) + line(r.path@), w);
        assert((opt_line(opt_text(r.artist)) + opt_line(opt_text(r.title)) + number_line(r.year)) + line(r.bpm_text@) + (key_line(r.key) + opt_line(opt_text(r.label)) + opt_line(opt_text(r.catalog_number)) + opt_line(opt_text(r.release_title)) + number_line(r.track_number) + line(r.path@)) =~= searchable_of(r));
    }
}

proof fn lemma_found_in_key(r: TrackRecord, w: Seq<char>)
    ensures
        (r.key is Some && occurs_in(lowercase_of(camelot_text_of(r.key->0)), w)) ==> occurs_in(searchable_of(r), w),
{
    if r.key is Some && occurs_in(lowercase_of(camelot_text_of(r.key->0)), w) {
        lemma_searchable_parts(r);
        lemma_line_found(opt_line(opt_text(r.artist)) + opt_line(opt_text(r.title)) + number_line(r.year) + line(r.bpm_text@), camelot_text_of(r.key->0), opt_line(opt_text(r.label)) + opt_line(opt_text(r.catalog_number)) + opt_line(opt_text(r.release_title)) + number_line(r.track_number) + line(r.path@), w);
        assert((opt_line(opt_text(r.artist)) + opt_line(opt_text(r.title)) + number_line(r.year) + line(r.bpm_text@)) + line(camelot_text_of(r.key->0)) + (opt_line(opt_text(r.label)) + opt_line(opt_text(r.catalog_number)) + opt_line(opt_text(r.release_title)) + number_line(r.track_number) + line(r.path@)) =~= searchable_of(r));
    }
}

proof fn lemma_found_in_track_number(r: TrackRecord, w: Seq<char>)
    ensures
        (r.track_number is Some && occurs_in(lowercase_of(decimal(r.track_number->0 as nat)), w)) ==> occurs_in(searchable_of(r), w),
{
    if r.track_number is Some && occurs_in(lowercase_of(decimal(r.track_number->0 as nat)), w) {
        lemma_searchable_parts(r);
        lemma_line_found(opt_line(opt_text(r.artist)) + opt_line(opt_text(r.title)) + number_line(r.year) + line(r.bpm_text@) + key_line(r.key) + opt_line(opt_text(r.label)) + opt_line(opt_text(r.catalog_number)) + opt_line(opt_text(r.release_title)), decimal(r.track_number->0 as nat), line(r.path@), w);
        assert((opt_line(opt_text(r.artist)) + opt_line(opt_text(r.title)) + number_line(r.year) + line(r.bpm_text@) + key_line(r.key) + opt_line(opt_text(r.label)) + opt_line(opt_text(r.catalog_number)) + opt_line(opt_text(r.release_title))) + line(decimal(r.track_number->0 as nat)) + (line(r.path@)) =~= searchable_of(r));
    }
}

/// A search looks through every field of a track: a word found in the
/// lowercase of its artist, title, label, catalog number, release title,
/// file path, year, tempo, Camelot code or track number is found in the
/// track, so a search of words each found in one of those fields shows the
/// track as far as the search goes.
pub proof fn a_word_in_any_field_is_found(r: TrackRecord, w: Seq<char>)
    ensures
        (r.artist matches Some(a) && occurs_in(lowercase_of(a@), w)) ==> occurs_in(searchable_of(r), w),
        (r.title matches Some(t) && occurs_in(lowercase_of(t@), w)) ==> occurs_in(searchable_of(r), w),
        (r.label matches Some(l) && occurs_in(lowercase_of(l@), w)) ==> occurs_in(searchable_of(r), w),
        (r.catalog_number matches Some(c) && occurs_in(lowercase_of(c@), w)) ==> occurs_in(
            searchable_of(r),
            w,
        ),
        (r.release_title matches Some(t) && occurs_in(lowercase_of(t@), w)) ==> occurs_in(
            searchable_of(r),
            w,
        ),
        occurs_in(lowercase_of(r.path@), w) ==> occurs_in(searchable_of(r), w),
        (r.year is Some && occurs_in(lowercase_of(decimal(r.year->0 as nat)), w)) ==> occurs_in(
            searchable_of(r),
            w,
        ),
        occurs_in(lowercase_of(r.bpm_text@), w) ==> occurs_in(searchable_of(r), w),
        (r.key is Some && occurs_in(lowercase_of(camelot_text_of(r.key->0)), w)) ==> occurs_in(
            searchable_of(r),
            w,
        ),
        (r.track_number is Some && occurs_in(lowercase_of(decimal(r.track_number->0 as nat)), w))
            ==> occurs_in(searchable_of(r), w),
{
    lemma_found_in_year(r, w);
    lemma_found_in_tempo(r, w);
    lemma_found_in_key(r, w);
    lemma_found_in_track_number(r, w);
    lemma_found_in_artist(r, w);
    lemma_found_in_title(r, w);
    lemma_found_in_label(r, w);
    lemma_found_in_catalog_number(r, w);
    lemma_found_in_release_title(r, w);
    lemma_found_in_path(r, w);
}

/// Each end of a range the filters set keeps out the tracks beyond it: a
/// track from after the last year, before the first year, or with no year
/// while a year range is set fails the filters, and so does a track whose
/// tempo lies beyond either end of the tempo range or whose key is not
/// among keys chosen.
pub proof fn a_track_beyond_a_range_fails_the_filters(f: Filters, r: TrackRecord)
    ensures
        (f.year_to matches Some(to) && r.year matches Some(y) && y > to) ==> !passes_the_filters(f, r),
        (f.year_from matches Some(from) && r.year matches Some(y) && y < from) ==> !passes_the_filters(f, r),
        ((f.year_from is Some || f.year_to is Some) && r.year is None) ==> !passes_the_filters(f, r),
        (f.bpm_to matches Some(to) && r.bpm_rank > to) ==> !passes_the_filters(f, r),
        (f.bpm_from matches Some(from) && r.bpm_rank < from) ==> !passes_the_filters(f, r),
        (f.keys@.len() > 0 && !(r.key matches Some(code) && f.keys@.contains(code))) ==> !passes_the_filters(f, r),
        passes_the_filters(f, r) ==> (f.year_to matches Some(to) ==> r.year matches Some(y) && y <= to),
        passes_the_filters(f, r) ==> (f.year_from matches Some(from) ==> r.year matches Some(y) && y >= from),
{
}

/// Each column's cell shows the row's own value for that column: the
/// artist, title, label, catalog number and release title where the row
/// has them, the tempo text, and empty text for a label, catalog number or
/// release the row has none of.
pub proof fn every_cell_shows_its_own_field(row: LibraryRow)
    ensures
        row.artist matches Some(a) ==> cell_of(row, Column::Artist) == a@,
        row.title matches Some(t) ==> cell_of(row, Column::Title) == t@,
        row.label matches Some(l) ==> cell_of(row, Column::Label) == l@,
        row.catalog_number matches Some(c) ==> cell_of(row, Column::CatalogNumber) == c@,
        row.release_title matches Some(t) ==> cell_of(row, Column::Release) == t@,
        row.label is None ==> cell_of(row, Column::Label) == Seq::<char>::empty(),
        row.catalog_number is None ==> cell_of(row, Column::CatalogNumber) == Seq::<char>::empty(),
        row.release_title is None ==> cell_of(row, Column::Release) == Seq::<char>::empty(),
        cell_of(row, Column::Bpm) == row.bpm_text@,
        cell_of(row, Column::Duration) == row.length_text@,
        row.artist is None ==> cell_of(row, Column::Artist) == UNKNOWN_ARTIST@,
        (row.title is None && file_name_of(row.path@) is Some) ==> cell_of(row, Column::Title)
            == file_name_of(row.path@)->0,
        row.camelot matches Some(code) ==> cell_of(row, Column::Key) == camelot_text_of(code),
        row.camelot is None ==> cell_of(row, Column::Key) == NO_KEY@,
        row.track_number matches Some(n) ==> cell_of(row, Column::TrackNumber) == decimal(n as nat),
        row.track_number is None ==> cell_of(row, Column::TrackNumber) == Seq::<char>::empty(),
        row.year is None ==> cell_of(row, Column::Year) == NO_YEAR@,
        (row.year is Some && !row.year_is_approximate) ==> cell_of(row, Column::Year) == decimal(
            row.year->0 as nat,
        ),
        (row.year is Some && row.year_is_approximate) ==> cell_of(row, Column::Year) == "about "@
            + decimal(row.year->0 as nat),
{
}

/// A text filter keeps out every track whose field does not contain the
/// filter's text, spaces around it ignored and both compared in lowercase,
/// and every track with no value in that field; a filter of empty text or
/// only spaces keeps nothing out.
pub proof fn a_track_without_the_filter_text_fails_the_filters(f: Filters, r: TrackRecord)
    ensures
        trim(f.artist@).len() > 0 && !(r.artist matches Some(a) && occurs_in(
            lowercase_of(a@),
            lowercase_of(trim(f.artist@)),
        )) ==> !passes_the_filters(f, r),
        trim(f.title@).len() > 0 && !(r.title matches Some(t) && occurs_in(
            lowercase_of(t@),
            lowercase_of(trim(f.title@)),
        )) ==> !passes_the_filters(f, r),
        trim(f.label@).len() > 0 && !(r.label matches Some(l) && occurs_in(
            lowercase_of(l@),
            lowercase_of(trim(f.label@)),
        )) ==> !passes_the_filters(f, r),
        trim(f.path@).len() > 0 && !occurs_in(lowercase_of(r.path@), lowercase_of(trim(f.path@)))
            ==> !passes_the_filters(f, r),
{
}

}
