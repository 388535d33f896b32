//! Sales report rows and the parser for the gzip-compressed TSV reports of the
//! App Store Connect API (`GET /v1/salesReports`).

use vstd::prelude::*;

use super::ci::str_eq;

verus! {

/// Number of columns of a sales report row.
pub const SALES_REPORT_COLUMNS: usize = 26;

/// A single row from an App Store Connect sales report.
#[derive(Debug, Clone)]
pub struct SalesReportRow {
    /// Content provider name. (column `Provider`)
    pub provider: String,
    /// Provider country code. (column `Provider Country`)
    pub provider_country: String,
    /// Stock-keeping unit. (column `SKU`)
    pub sku: String,
    /// Developer name. (column `Developer`)
    pub developer: String,
    /// App or IAP title. (column `Title`)
    pub title: String,
    /// App version string. (column `Version`)
    pub version: String,
    /// Product type identifier (e.g., "1F" for iPhone app). (column `Product Type Identifier`)
    pub product_type_identifier: String,
    /// Number of units. (column `Units`)
    pub units: String,
    /// Developer proceeds amount. (column `Developer Proceeds`)
    pub developer_proceeds: String,
    /// Currency of proceeds. (column `Currency of Proceeds`)
    pub currency_of_proceeds: String,
    /// Begin date of the report period. (column `Begin Date`)
    pub begin_date: String,
    /// End date of the report period. (column `End Date`)
    pub end_date: String,
    /// Customer's local currency. (column `Customer Currency`)
    pub customer_currency: String,
    /// Customer-facing price. (column `Customer Price`)
    pub customer_price: String,
    /// Promo code used, if any. (column `Promo Code`)
    pub promo_code: String,
    /// Parent app identifier for IAP. (column `Parent Identifier`)
    pub parent_identifier: String,
    /// Subscription indicator. (column `Subscription`)
    pub subscription: String,
    /// Subscription period. (column `Period`)
    pub period: String,
    /// App category. (column `Category`)
    pub category: String,
    /// CMB (content/media/bundle) indicator. (column `CMB`)
    pub cmb: String,
    /// Device type. (column `Device`)
    pub device: String,
    /// Supported platforms. (column `Supported Platforms`)
    pub supported_platforms: String,
    /// Proceeds reason. (column `Proceeds Reason`)
    pub proceeds_reason: String,
    /// Preserved pricing indicator. (column `Preserved Pricing`)
    pub preserved_pricing: String,
    /// Client type. (column `Client`)
    pub client: String,
    /// Order type. (column `Order Type`)
    pub order_type: String,
}

/// The header of the sales report column that holds field `i` of a row
/// (fields counted in declaration order).
pub open spec fn column_name(i: int) -> Seq<char> {
    if i == 0 {
        "Provider"@
    } else if i == 1 {
        "Provider Country"@
    } else if i == 2 {
        "SKU"@
    } else if i == 3 {
        "Developer"@
    } else if i == 4 {
        "Title"@
    } else if i == 5 {
        "Version"@
    } else if i == 6 {
        "Product Type Identifier"@
    } else if i == 7 {
        "Units"@
    } else if i == 8 {
        "Developer Proceeds"@
    } else if i == 9 {
        "Currency of Proceeds"@
    } else if i == 10 {
        "Begin Date"@
    } else if i == 11 {
        "End Date"@
    } else if i == 12 {
        "Customer Currency"@
    } else if i == 13 {
        "Customer Price"@
    } else if i == 14 {
        "Promo Code"@
    } else if i == 15 {
        "Parent Identifier"@
    } else if i == 16 {
        "Subscription"@
    } else if i == 17 {
        "Period"@
    } else if i == 18 {
        "Category"@
    } else if i == 19 {
        "CMB"@
    } else if i == 20 {
        "Device"@
    } else if i == 21 {
        "Supported Platforms"@
    } else if i == 22 {
        "Proceeds Reason"@
    } else if i == 23 {
        "Preserved Pricing"@
    } else if i == 24 {
        "Client"@
    } else {
        "Order Type"@
    }
}

/// The header of the column that holds field `i` of a row.
fn column_name_str(i: usize) -> (res: &'static str)
    requires
        i < SALES_REPORT_COLUMNS,
    ensures
        res@ == column_name(i as int),
{
    match i {
        0 => "Provider",
        1 => "Provider Country",
        2 => "SKU",
        3 => "Developer",
        4 => "Title",
        5 => "Version",
        6 => "Product Type Identifier",
        7 => "Units",
        8 => "Developer Proceeds",
        9 => "Currency of Proceeds",
        10 => "Begin Date",
        11 => "End Date",
        12 => "Customer Currency",
        13 => "Customer Price",
        14 => "Promo Code",
        15 => "Parent Identifier",
        16 => "Subscription",
        17 => "Period",
        18 => "Category",
        19 => "CMB",
        20 => "Device",
        21 => "Supported Platforms",
        22 => "Proceeds Reason",
        23 => "Preserved Pricing",
        24 => "Client",
        _ => "Order Type",
    }
}

impl SalesReportRow {
    /// The fields of the row, in declaration order.
    pub open spec fn fields(&self) -> Seq<Seq<char>> {
        seq![self.provider@, self.provider_country@, self.sku@, self.developer@, self.title@, self.version@, self.product_type_identifier@, self.units@, self.developer_proceeds@, self.currency_of_proceeds@, self.begin_date@, self.end_date@, self.customer_currency@, self.customer_price@, self.promo_code@, self.parent_identifier@, self.subscription@, self.period@, self.category@, self.cmb@, self.device@, self.supported_platforms@, self.proceeds_reason@, self.preserved_pricing@, self.client@, self.order_type@]
    }

    /// Builds a row from its field values in declaration order.
    fn from_values(v: &Vec<String>) -> (res: Self)
        requires
            v@.len() == SALES_REPORT_COLUMNS,
        ensures
            res.fields() == cells(v@),
    {
        let res = SalesReportRow {
            provider: v[0].clone(),
            provider_country: v[1].clone(),
            sku: v[2].clone(),
            developer: v[3].clone(),
            title: v[4].clone(),
            version: v[5].clone(),
            product_type_identifier: v[6].clone(),
            units: v[7].clone(),
            developer_proceeds: v[8].clone(),
            currency_of_proceeds: v[9].clone(),
            begin_date: v[10].clone(),
            end_date: v[11].clone(),
            customer_currency: v[12].clone(),
            customer_price: v[13].clone(),
            promo_code: v[14].clone(),
            parent_identifier: v[15].clone(),
            subscription: v[16].clone(),
            period: v[17].clone(),
            category: v[18].clone(),
            cmb: v[19].clone(),
            device: v[20].clone(),
            supported_platforms: v[21].clone(),
            proceeds_reason: v[22].clone(),
            preserved_pricing: v[23].clone(),
            client: v[24].clone(),
            order_type: v[25].clone(),
        };
        assert(res.fields() =~= cells(v@));
        res
    }
}

/// The characters of each string.
pub open spec fn cells(v: Seq<String>) -> Seq<Seq<char>> {
    v.map_values(|s: String| s@)
}

/// Errors that can occur when parsing sales report TSV data.
#[derive(Debug)]
pub enum SalesTsvError {
    /// Failed to decompress gzip data.
    Decompression(String),
    /// Failed to parse TSV data.
    Parse(String),
}

/// The human-readable description of a [`SalesTsvError`].
pub open spec fn sales_error_text(e: SalesTsvError) -> Seq<char> {
    match e {
        SalesTsvError::Decompression(m) => "gzip decompression failed: "@ + m@,
        SalesTsvError::Parse(m) => "TSV parse error: "@ + m@,
    }
}

impl SalesTsvError {
    /// Describes the error, e.g. `gzip decompression failed: invalid gzip header`.
    pub fn message(&self) -> (res: String)
        ensures
            res@ == sales_error_text(*self),
    {
        match self {
            SalesTsvError::Decompression(m) => String::from_str("gzip decompression failed: ").concat(m.as_str()),
            SalesTsvError::Parse(m) => String::from_str("TSV parse error: ").concat(m.as_str()),
        }
    }
}

/// A delimited text table as read by the `csv` crate: the header row (absent when it is not
/// valid UTF-8), the records after it up to the first read error, and the message of that
/// error, if reading stopped on one.
#[derive(Debug)]
pub struct TsvTable {
    /// The cells of the header row, unless the header row is not valid UTF-8.
    pub header: Option<Vec<String>>,
    /// The cells of each record after the header row.
    pub records: Vec<Vec<String>>,
    /// The message of the error that ended reading, if reading did not reach the end.
    pub read_error: Option<String>,
}

/// The view of a table: header cells, record cells, and the message of the error that ended
/// reading, if any.
pub type TableView = (Option<Seq<Seq<char>>>, Seq<Seq<Seq<char>>>, Option<Seq<char>>);

impl View for TsvTable {
    type V = TableView;

    open spec fn view(&self) -> TableView {
        (
            match self.header {
                Some(h) => Some(cells(h@)),
                None => None,
            },
            self.records@.map_values(|r: Vec<String>| cells(r@)),
            match self.read_error {
                Some(e) => Some(e@),
                None => None,
            },
        )
    }
}

/// What gzip decompression (`flate2::read::GzDecoder` read to the end) yields for `data`:
/// the decompressed bytes, or the message of the error where it fails.
pub uninterp spec fn gunzip(data: Seq<u8>) -> Result<Seq<u8>, Seq<char>>;

/// The table that the `csv` crate reads from `data` with the given delimiter and
/// flexibility, headers on.
pub uninterp spec fn delimited_read(data: Seq<u8>, delimiter: u8, flexible: bool) -> TableView;

/// Decompresses gzip data with `flate2::read::GzDecoder` and `Read::read_to_end`. The contract
/// names the outcome, the decompressed bytes or the error's message, which depend on the
/// bytes alone.
#[verifier::external_body]
fn gzip_decompress(data: &[u8]) -> (res: Result<Vec<u8>, String>)
    ensures
        match res {
            Ok(v) => gunzip(data@) == Ok::<Seq<u8>, Seq<char>>(v@),
            Err(m) => gunzip(data@) == Err::<Seq<u8>, Seq<char>>(m@),
        },
{
    let mut decoder = flate2::read::GzDecoder::new(data);
    let mut out = Vec::new();
    match std::io::Read::read_to_end(&mut decoder, &mut out) {
        Ok(_) => Ok(out),
        Err(e) => Err(e.to_string()),
    }
}

/// Reads delimited text with `csv::ReaderBuilder` (headers on): `Reader::headers` for the
/// header row, then `Reader::records` up to the first error. The contract names the table,
/// the read error's message included, which depends on the arguments alone.
#[verifier::external_body]
fn read_delimited(data: &[u8], delimiter: u8, flexible: bool) -> (res: TsvTable)
    ensures
        res@ == delimited_read(data@, delimiter, flexible),
{
    let mut rdr = csv::ReaderBuilder::new().delimiter(delimiter).flexible(flexible).from_reader(data);
    let header = rdr.headers().ok().map(|h| h.iter().map(String::from).collect());
    let mut records = Vec::new();
    let mut read_error = None;
    for rec in rdr.records() {
        match rec {
            Ok(r) => records.push(r.iter().map(String::from).collect()),
            Err(e) => {
                read_error = Some(e.to_string());
                break;
            },
        }
    }
    TsvTable { header, records, read_error }
}

/// Number of cells of `h` equal to `name`.
pub open spec fn occurrences(h: Seq<Seq<char>>, name: Seq<char>) -> nat
    decreases h.len(),
{
    if h.len() == 0 {
        0
    } else {
        occurrences(h.drop_last(), name) + if h.last() == name { 1nat } else { 0nat }
    }
}

/// Index of the first cell of `h` equal to `name`, or -1.
pub open spec fn first_index(h: Seq<Seq<char>>, name: Seq<char>) -> int
    decreases h.len(),
{
    if h.len() == 0 {
        -1
    } else if first_index(h.drop_last(), name) >= 0 {
        first_index(h.drop_last(), name)
    } else if h.last() == name {
        h.len() - 1
    } else {
        -1
    }
}

/// Whether a record deserializes into a row. With a header, every header cell takes the
/// record cell at its position (so the record must be at least as long as the header) and
/// each column must be named exactly once; without a header, the first
/// [`SALES_REPORT_COLUMNS`] cells are taken in order.
pub open spec fn record_maps(header: Option<Seq<Seq<char>>>, rec: Seq<Seq<char>>) -> bool {
    match header {
        Some(h) => {
            &&& h.len() <= rec.len()
            &&& forall|i: int| 0 <= i < SALES_REPORT_COLUMNS ==> occurrences(h, #[trigger] column_name(i)) == 1
        },
        None => rec.len() >= SALES_REPORT_COLUMNS,
    }
}

/// Field `i` of the row that a record deserializes into.
pub open spec fn record_field(header: Option<Seq<Seq<char>>>, rec: Seq<Seq<char>>, i: int) -> Seq<char> {
    match header {
        Some(h) => rec[first_index(h, column_name(i))],
        None => rec[i],
    }
}

/// The fields of the row that a record deserializes into.
pub open spec fn record_row(header: Option<Seq<Seq<char>>>, rec: Seq<Seq<char>>) -> Seq<Seq<char>> {
    Seq::new(SALES_REPORT_COLUMNS as nat, |i: int| record_field(header, rec, i))
}

/// Whether every record of a table deserializes and reading reached the end.
pub open spec fn table_parses(t: TableView) -> bool {
    &&& forall|k: int| 0 <= k < t.1.len() ==> record_maps(t.0, #[trigger] t.1[k])
    &&& t.2 is None
}

/// The fields of each row of a table.
pub open spec fn table_rows(t: TableView) -> Seq<Seq<Seq<char>>> {
    t.1.map_values(|rec: Seq<Seq<char>>| record_row(t.0, rec))
}

/// The fields of each row.
pub open spec fn rows_view(rows: Seq<SalesReportRow>) -> Seq<Seq<Seq<char>>> {
    rows.map_values(|r: SalesReportRow| r.fields())
}

/// Each field of a row deserialized under a header holds the record cell under the header
/// cell that carries the field's column name, and every column name occurs exactly once in
/// that header: `provider` is the cell under `Provider`, `subscription` the cell under
/// `Subscription`, `period` the cell under `Period`, and so on for all the columns.
pub proof fn lemma_row_fields_by_column_name(row: SalesReportRow, h: Seq<Seq<char>>, r: Seq<Seq<char>>)
    requires
        record_maps(Some(h), r),
        row.fields() == record_row(Some(h), r),
    ensures
        occurrences(h, "Provider"@) == 1 && row.provider@ == r[first_index(h, "Provider"@)],
        occurrences(h, "Provider Country"@) == 1 && row.provider_country@ == r[first_index(h, "Provider Country"@)],
        occurrences(h, "SKU"@) == 1 && row.sku@ == r[first_index(h, "SKU"@)],
        occurrences(h, "Developer"@) == 1 && row.developer@ == r[first_index(h, "Developer"@)],
        occurrences(h, "Title"@) == 1 && row.title@ == r[first_index(h, "Title"@)],
        occurrences(h, "Version"@) == 1 && row.version@ == r[first_index(h, "Version"@)],
        occurrences(h, "Product Type Identifier"@) == 1 && row.product_type_identifier@ == r[first_index(h, "Product Type Identifier"@)],
        occurrences(h, "Units"@) == 1 && row.units@ == r[first_index(h, "Units"@)],
        occurrences(h, "Developer Proceeds"@) == 1 && row.developer_proceeds@ == r[first_index(h, "Developer Proceeds"@)],
        occurrences(h, "Currency of Proceeds"@) == 1 && row.currency_of_proceeds@ == r[first_index(h, "Currency of Proceeds"@)],
        occurrences(h, "Begin Date"@) == 1 && row.begin_date@ == r[first_index(h, "Begin Date"@)],
        occurrences(h, "End Date"@) == 1 && row.end_date@ == r[first_index(h, "End Date"@)],
        occurrences(h, "Customer Currency"@) == 1 && row.customer_currency@ == r[first_index(h, "Customer Currency"@)],
        occurrences(h, "Customer Price"@) == 1 && row.customer_price@ == r[first_index(h, "Customer Price"@)],
        occurrences(h, "Promo Code"@) == 1 && row.promo_code@ == r[first_index(h, "Promo Code"@)],
        occurrences(h, "Parent Identifier"@) == 1 && row.parent_identifier@ == r[first_index(h, "Parent Identifier"@)],
        occurrences(h, "Subscription"@) == 1 && row.subscription@ == r[first_index(h, "Subscription"@)],
        occurrences(h, "Period"@) == 1 && row.period@ == r[first_index(h, "Period"@)],
        occurrences(h, "Category"@) == 1 && row.category@ == r[first_index(h, "Category"@)],
        occurrences(h, "CMB"@) == 1 && row.cmb@ == r[first_index(h, "CMB"@)],
        occurrences(h, "Device"@) == 1 && row.device@ == r[first_index(h, "Device"@)],
        occurrences(h, "Supported Platforms"@) == 1 && row.supported_platforms@ == r[first_index(h, "Supported Platforms"@)],
        occurrences(h, "Proceeds Reason"@) == 1 && row.proceeds_reason@ == r[first_index(h, "Proceeds Reason"@)],
        occurrences(h, "Preserved Pricing"@) == 1 && row.preserved_pricing@ == r[first_index(h, "Preserved Pricing"@)],
        occurrences(h, "Client"@) == 1 && row.client@ == r[first_index(h, "Client"@)],
        occurrences(h, "Order Type"@) == 1 && row.order_type@ == r[first_index(h, "Order Type"@)],
{
    assert forall|i: int| 0 <= i < SALES_REPORT_COLUMNS implies row.fields()[i] == r[first_index(h, #[trigger] column_name(i))] by {
        assert(record_row(Some(h), r)[i] == record_field(Some(h), r, i));
    }
    assert(row.fields()[0] == r[first_index(h, column_name(0))]);
    assert(row.fields()[1] == r[first_index(h, column_name(1))]);
    assert(row.fields()[2] == r[first_index(h, column_name(2))]);
    assert(row.fields()[3] == r[first_index(h, column_name(3))]);
    assert(row.fields()[4] == r[first_index(h, column_name(4))]);
    assert(row.fields()[5] == r[first_index(h, column_name(5))]);
    assert(row.fields()[6] == r[first_index(h, column_name(6))]);
    assert(row.fields()[7] == r[first_index(h, column_name(7))]);
    assert(row.fields()[8] == r[first_index(h, column_name(8))]);
    assert(row.fields()[9] == r[first_index(h, column_name(9))]);
    assert(row.fields()[10] == r[first_index(h, column_name(10))]);
    assert(row.fields()[11] == r[first_index(h, column_name(11))]);
    assert(row.fields()[12] == r[first_index(h, column_name(12))]);
    assert(row.fields()[13] == r[first_index(h, column_name(13))]);
    assert(row.fields()[14] == r[first_index(h, column_name(14))]);
    assert(row.fields()[15] == r[first_index(h, column_name(15))]);
    assert(row.fields()[16] == r[first_index(h, column_name(16))]);
    assert(row.fields()[17] == r[first_index(h, column_name(17))]);
    assert(row.fields()[18] == r[first_index(h, column_name(18))]);
    assert(row.fields()[19] == r[first_index(h, column_name(19))]);
    assert(row.fields()[20] == r[first_index(h, column_name(20))]);
    assert(row.fields()[21] == r[first_index(h, column_name(21))]);
    assert(row.fields()[22] == r[first_index(h, column_name(22))]);
    assert(row.fields()[23] == r[first_index(h, column_name(23))]);
    assert(row.fields()[24] == r[first_index(h, column_name(24))]);
    assert(row.fields()[25] == r[first_index(h, column_name(25))]);
}

/// Occurrences and first index grow cell by cell.
proof fn lemma_scan_step(h: Seq<Seq<char>>, name: Seq<char>, j: int)
    requires
        0 <= j < h.len(),
    ensures
        h.take(j + 1).drop_last() == h.take(j),
        occurrences(h.take(j + 1), name) == occurrences(h.take(j), name) + if h[j] == name { 1nat } else { 0nat },
        first_index(h.take(j + 1), name) == if first_index(h.take(j), name) >= 0 {
            first_index(h.take(j), name)
        } else if h[j] == name {
            j
        } else {
            -1
        },
{
    assert(h.take(j + 1).drop_last() =~= h.take(j));
}

/// A name that occurs in `h` has its first index inside `h`.
proof fn lemma_first_index_in_bounds(h: Seq<Seq<char>>, name: Seq<char>)
    ensures
        occurrences(h, name) > 0 ==> 0 <= first_index(h, name) < h.len(),
        occurrences(h, name) == 0 ==> first_index(h, name) == -1,
        first_index(h, name) >= 0 ==> h[first_index(h, name)] == name,
    decreases h.len(),
{
    if h.len() > 0 {
        lemma_first_index_in_bounds(h.drop_last(), name);
        let f = first_index(h.drop_last(), name);
        if f >= 0 {
            assert(h.drop_last()[f] == h[f]);
        }
    }
}

/// `h` holds `name` at index `j` and nowhere else.
pub open spec fn unique_at(h: Seq<Seq<char>>, name: Seq<char>, j: int) -> bool {
    &&& 0 <= j < h.len()
    &&& h[j] == name
    &&& forall|k: int| 0 <= k < h.len() && #[trigger] h[k] == name ==> k == j
}

/// A name that does not occur in `h` is counted zero times.
proof fn lemma_no_occurrence(h: Seq<Seq<char>>, name: Seq<char>)
    requires
        forall|k: int| 0 <= k < h.len() ==> #[trigger] h[k] != name,
    ensures
        occurrences(h, name) == 0,
        first_index(h, name) == -1,
    decreases h.len(),
{
    if h.len() > 0 {
        assert forall|k: int| 0 <= k < h.drop_last().len() implies #[trigger] h.drop_last()[k] != name by {
            assert(h.drop_last()[k] == h[k]);
        }
        lemma_no_occurrence(h.drop_last(), name);
        assert(h.last() == h[h.len() - 1]);
    }
}

/// A name counted zero times does not occur in `h`.
proof fn lemma_zero_occurrences(h: Seq<Seq<char>>, name: Seq<char>)
    requires
        occurrences(h, name) == 0,
    ensures
        forall|k: int| 0 <= k < h.len() ==> #[trigger] h[k] != name,
    decreases h.len(),
{
    if h.len() > 0 {
        lemma_zero_occurrences(h.drop_last(), name);
        assert forall|k: int| 0 <= k < h.len() implies #[trigger] h[k] != name by {
            if k < h.len() - 1 {
                assert(h.drop_last()[k] == h[k]);
            }
        }
    }
}

/// A name is counted exactly once in `h` exactly when it occurs at one index only, and that
/// index is its first index.
pub proof fn lemma_unique_occurrence(h: Seq<Seq<char>>, name: Seq<char>)
    ensures
        occurrences(h, name) == 1 <==> unique_at(h, name, first_index(h, name)),
        forall|j: int| #[trigger] unique_at(h, name, j) ==> j == first_index(h, name),
    decreases h.len(),
{
    if h.len() > 0 {
        let d = h.drop_last();
        lemma_unique_occurrence(d, name);
        assert forall|k: int| 0 <= k < d.len() implies #[trigger] d[k] == h[k] by {}
        if h.last() == name {
            assert(h[h.len() - 1] == name);
            if occurrences(d, name) == 0 {
                lemma_zero_occurrences(d, name);
                lemma_no_occurrence(d, name);
                assert forall|k: int| 0 <= k < h.len() && #[trigger] h[k] == name implies k == h.len() - 1 by {
                    if k < h.len() - 1 {
                        assert(d[k] == h[k]);
                    }
                }
                assert(unique_at(h, name, h.len() - 1));
            } else {
                lemma_first_index_in_bounds(d, name);
                let f = first_index(d, name);
                assert(h[f] == name);
                assert(!unique_at(h, name, first_index(h, name)));
                assert forall|j: int| #[trigger] unique_at(h, name, j) implies j == first_index(h, name) by {
                    assert(h[h.len() - 1] == name);
                }
            }
        } else {
            assert(h[h.len() - 1] != name);
            assert forall|j: int| #[trigger] unique_at(h, name, j) implies j == first_index(h, name) by {
                assert(unique_at(d, name, j));
            }
            if occurrences(d, name) == 1 {
                let f = first_index(d, name);
                assert(unique_at(d, name, f));
                assert(first_index(h, name) == f);
                assert(h[f] == d[f]);
                assert forall|k: int| 0 <= k < h.len() && #[trigger] h[k] == name implies k == f by {
                    if k < h.len() - 1 {
                        assert(d[k] == h[k]);
                    }
                }
                assert(unique_at(h, name, first_index(h, name)));
            } else {
                if unique_at(h, name, first_index(h, name)) {
                    assert(unique_at(d, name, first_index(h, name)));
                    lemma_first_index_in_bounds(d, name);
                }
            }
        }
    }
}

/// `p` maps `[0, n)` one to one onto itself, with inverse `q`.
pub open spec fn permutes(p: spec_fn(int) -> int, q: spec_fn(int) -> int, n: int) -> bool {
    &&& forall|i: int| 0 <= i < n ==> 0 <= #[trigger] p(i) < n && q(p(i)) == i
    &&& forall|j: int| 0 <= j < n ==> 0 <= #[trigger] q(j) < n && p(q(j)) == j
}

/// `b` is `a` with its first `n` cells moved by `p`: the cell at `i` goes to `p(i)`; cells at
/// `n` and beyond stay where they are.
pub open spec fn cells_permuted(a: Seq<Seq<char>>, b: Seq<Seq<char>>, p: spec_fn(int) -> int, n: int) -> bool {
    &&& a.len() == b.len()
    &&& forall|i: int| 0 <= i < a.len() && i < n ==> b[p(i)] == #[trigger] a[i]
    &&& forall|i: int| n <= i < a.len() ==> #[trigger] b[i] == a[i]
}

/// Fields are matched by header name, not by position: moving the columns of the header and of
/// a record the same way changes neither whether the record deserializes nor the row it gives.
pub proof fn lemma_record_row_permuted(
    h: Seq<Seq<char>>,
    r: Seq<Seq<char>>,
    h2: Seq<Seq<char>>,
    r2: Seq<Seq<char>>,
    p: spec_fn(int) -> int,
    q: spec_fn(int) -> int,
)
    requires
        permutes(p, q, h.len() as int),
        cells_permuted(h, h2, p, h.len() as int),
        cells_permuted(r, r2, p, h.len() as int),
    ensures
        record_maps(Some(h), r) == record_maps(Some(h2), r2),
        record_maps(Some(h), r) ==> record_row(Some(h), r) == record_row(Some(h2), r2),
{
    let n = h.len() as int;
    assert forall|name: Seq<char>| occurrences(h, name) == 1 <==> occurrences(h2, name) == 1 by {
        lemma_unique_occurrence(h, name);
        lemma_unique_occurrence(h2, name);
        let j = first_index(h, name);
        let j2 = first_index(h2, name);
        if occurrences(h, name) == 1 {
            assert(unique_at(h, name, j));
            assert(h2[p(j)] == h[j]);
            assert forall|k: int| 0 <= k < h2.len() && #[trigger] h2[k] == name implies k == p(j) by {
                assert(h2[p(q(k))] == h[q(k)]);
            }
            assert(unique_at(h2, name, p(j)));
        }
        if occurrences(h2, name) == 1 {
            assert(unique_at(h2, name, j2));
            assert(h2[p(q(j2))] == h[q(j2)]);
            assert forall|k: int| 0 <= k < h.len() && #[trigger] h[k] == name implies k == q(j2) by {
                assert(h2[p(k)] == h[k]);
            }
            assert(unique_at(h, name, q(j2)));
        }
    }
    if record_maps(Some(h), r) {
        assert forall|i: int| 0 <= i < SALES_REPORT_COLUMNS implies
            record_field(Some(h), r, i) == record_field(Some(h2), r2, i) by {
            let name = column_name(i);
            lemma_unique_occurrence(h, name);
            lemma_unique_occurrence(h2, name);
            let j = first_index(h, name);
            assert(occurrences(h, name) == 1);
            assert(unique_at(h, name, j));
            assert(h2[p(j)] == h[j]);
            assert forall|k: int| 0 <= k < h2.len() && #[trigger] h2[k] == name implies k == p(j) by {
                assert(h2[p(q(k))] == h[q(k)]);
            }
            assert(unique_at(h2, name, p(j)));
            assert(r2[p(j)] == r[j]);
        }
        assert(record_row(Some(h), r) =~= record_row(Some(h2), r2));
    }
}

/// Whether `name` is one of the report's column names.
pub open spec fn is_report_column(name: Seq<char>) -> bool {
    exists|i: int| 0 <= i < SALES_REPORT_COLUMNS && #[trigger] column_name(i) == name
}

/// A column whose name is none of the report's columns, added after the last column of the
/// header and of a record, changes neither whether the record deserializes nor the row it gives.
pub proof fn lemma_record_row_extra_column(h: Seq<Seq<char>>, r: Seq<Seq<char>>, name: Seq<char>, value: Seq<char>)
    requires
        !is_report_column(name),
        r.len() == h.len(),
    ensures
        record_maps(Some(h), r) == record_maps(Some(h.push(name)), r.push(value)),
        record_maps(Some(h), r) ==> record_row(Some(h), r) == record_row(Some(h.push(name)), r.push(value)),
{
    let h2 = h.push(name);
    let r2 = r.push(value);
    assert(h2.drop_last() =~= h);
    assert forall|i: int| 0 <= i < SALES_REPORT_COLUMNS implies
        occurrences(h2, #[trigger] column_name(i)) == occurrences(h, column_name(i))
        && first_index(h2, column_name(i)) == (if first_index(h, column_name(i)) >= 0 {
            first_index(h, column_name(i))
        } else {
            -1
        }) by {
        assert(h2.last() != column_name(i));
    }
    if record_maps(Some(h), r) {
        assert forall|i: int| 0 <= i < SALES_REPORT_COLUMNS implies
            record_field(Some(h), r, i) == record_field(Some(h2), r2, i) by {
            lemma_first_index_in_bounds(h, column_name(i));
            assert(occurrences(h, column_name(i)) == 1);
            assert(r2[first_index(h, column_name(i))] == r[first_index(h, column_name(i))]);
        }
        assert(record_row(Some(h), r) =~= record_row(Some(h2), r2));
    }
}

/// Moving the columns of a table's header and of every record the same way changes neither
/// whether the table parses nor the rows it gives.
pub proof fn lemma_table_rows_permuted(t: TableView, t2: TableView, p: spec_fn(int) -> int, q: spec_fn(int) -> int)
    requires
        t.0 is Some,
        t2.0 is Some,
        permutes(p, q, t.0.unwrap().len() as int),
        cells_permuted(t.0.unwrap(), t2.0.unwrap(), p, t.0.unwrap().len() as int),
        t.1.len() == t2.1.len(),
        forall|k: int| 0 <= k < t.1.len() ==> cells_permuted(#[trigger] t.1[k], t2.1[k], p, t.0.unwrap().len() as int),
        t.2 == t2.2,
    ensures
        table_parses(t) == table_parses(t2),
        records_map(t) == records_map(t2),
        table_parses(t) ==> table_rows(t) == table_rows(t2),
{
    let h = t.0.unwrap();
    let h2 = t2.0.unwrap();
    assert forall|k: int| 0 <= k < t.1.len() implies
        record_maps(t.0, #[trigger] t.1[k]) == record_maps(t2.0, t2.1[k])
        && (record_maps(t.0, t.1[k]) ==> record_row(t.0, t.1[k]) == record_row(t2.0, t2.1[k])) by {
        lemma_record_row_permuted(h, t.1[k], h2, t2.1[k], p, q);
    }
    assert(records_map(t) == records_map(t2)) by {
        if records_map(t) {
            assert forall|k: int| 0 <= k < t2.1.len() implies record_maps(t2.0, #[trigger] t2.1[k]) by {
                assert(record_maps(t.0, t.1[k]));
            }
        }
        if records_map(t2) {
            assert forall|k: int| 0 <= k < t.1.len() implies record_maps(t.0, #[trigger] t.1[k]) by {
                assert(record_maps(t2.0, t2.1[k]));
            }
        }
    }
    if table_parses(t) {
        assert(table_rows(t) =~= table_rows(t2));
    }
}

/// Counts the cells of `h` equal to `name` and finds the first of them.
fn find_column(h: &Vec<String>, name: &str) -> (res: (usize, usize))
    ensures
        res.0 == occurrences(cells(h@), name@),
        res.0 > 0 ==> res.1 as int == first_index(cells(h@), name@),
{
    let ghost hv = cells(h@);
    let mut count: usize = 0;
    let mut first: usize = 0;
    let mut j: usize = 0;
    assert(hv.take(0) =~= Seq::<Seq<char>>::empty());
    while j < h.len()
        invariant
            j <= h.len(),
            hv == cells(h@),
            count == occurrences(hv.take(j as int), name@),
            count <= j,
            count > 0 ==> first as int == first_index(hv.take(j as int), name@),
        decreases h.len() - j,
    {
        proof {
            lemma_scan_step(hv, name@, j as int);
            lemma_first_index_in_bounds(hv.take(j as int), name@);
        }
        if str_eq(h[j].as_str(), name) {
            if count == 0 {
                first = j;
            }
            count = count + 1;
        }
        j = j + 1;
    }
    assert(hv.take(h.len() as int) =~= hv);
    (count, first)
}

/// Deserializes one record into a row, following the header when there is one.
fn map_record(header: &Option<Vec<String>>, rec: &Vec<String>) -> (res: Option<SalesReportRow>)
    ensures
        res is Some <==> record_maps(opt_cells(*header), cells(rec@)),
        res matches Some(row) ==> row.fields() == record_row(opt_cells(*header), cells(rec@)),
{
    let ghost hv = opt_cells(*header);
    let ghost rv = cells(rec@);
    let mut values: Vec<String> = Vec::new();
    match header {
        Some(h) => {
            if h.len() > rec.len() {
                return None;
            }
            let mut i: usize = 0;
            while i < SALES_REPORT_COLUMNS
                invariant
                    i <= SALES_REPORT_COLUMNS,
                    h.len() <= rec.len(),
                    hv == Some(cells(h@)),
                    hv == opt_cells(*header),
                    rv == cells(rec@),
                    values@.len() == i,
                    forall|k: int| 0 <= k < i ==> occurrences(cells(h@), #[trigger] column_name(k)) == 1,
                    forall|k: int| 0 <= k < i ==> (#[trigger] values@[k])@ == record_field(hv, rv, k),
                decreases SALES_REPORT_COLUMNS - i,
            {
                let name = column_name_str(i);
                let (count, idx) = find_column(h, name);
                if count != 1 {
                    assert(occurrences(cells(h@), column_name(i as int)) != 1);
                    assert(!record_maps(hv, rv)) by {
                        assert(0 <= i < SALES_REPORT_COLUMNS);
                        assert(hv->0 == cells(h@));
                    }
                    return None;
                }
                proof {
                    lemma_first_index_in_bounds(cells(h@), name@);
                }
                values.push(rec[idx].clone());
                i = i + 1;
            }
        },
        None => {
            if rec.len() < SALES_REPORT_COLUMNS {
                return None;
            }
            let mut i: usize = 0;
            while i < SALES_REPORT_COLUMNS
                invariant
                    i <= SALES_REPORT_COLUMNS,
                    rec.len() >= SALES_REPORT_COLUMNS,
                    hv is None,
                    hv == opt_cells(*header),
                    rv == cells(rec@),
                    values@.len() == i,
                    forall|k: int| 0 <= k < i ==> (#[trigger] values@[k])@ == record_field(hv, rv, k),
                decreases SALES_REPORT_COLUMNS - i,
            {
                values.push(rec[i].clone());
                i = i + 1;
            }
        },
    }
    let row = SalesReportRow::from_values(&values);
    assert(row.fields() =~= record_row(hv, rv));
    Some(row)
}

/// The cells of an optional header.
pub open spec fn opt_cells(h: Option<Vec<String>>) -> Option<Seq<Seq<char>>> {
    match h {
        Some(v) => Some(cells(v@)),
        None => None,
    }
}

/// The message of a parse error for a record that does not deserialize.
pub open spec fn record_mismatch_text() -> Seq<char> {
    "record does not match the report columns"@
}

/// Whether every record of a table deserializes.
pub open spec fn records_map(t: TableView) -> bool {
    forall|k: int| 0 <= k < t.1.len() ==> record_maps(t.0, #[trigger] t.1[k])
}

/// The message of the parse error of a table that does not parse: [`record_mismatch_text`]
/// when a record does not deserialize, otherwise the message of the read error.
pub open spec fn table_error_text(t: TableView) -> Seq<char> {
    if records_map(t) {
        t.2.unwrap()
    } else {
        record_mismatch_text()
    }
}

/// Deserializes every record of a table into a sales report row, in order.
///
/// Succeeds exactly when every record deserializes and reading reached the end of the text;
/// otherwise the error is [`SalesTsvError::Parse`], carrying [`record_mismatch_text`] when a
/// record does not deserialize and the read error's message otherwise.
pub fn sales_rows_from_table(table: &TsvTable) -> (res: Result<Vec<SalesReportRow>, SalesTsvError>)
    ensures
        res is Ok <==> table_parses(table@),
        res matches Ok(rows) ==> rows_view(rows@) == table_rows(table@),
        res matches Err(e) ==> e matches SalesTsvError::Parse(m) && m@ == table_error_text(table@),
{
    let ghost tv = table@;
    let mut rows: Vec<SalesReportRow> = Vec::new();
    let mut k: usize = 0;
    while k < table.records.len()
        invariant
            k <= table.records.len(),
            tv == table@,
            rows@.len() == k,
            forall|j: int| 0 <= j < k ==> record_maps(tv.0, #[trigger] tv.1[j]),
            forall|j: int| 0 <= j < k ==> (#[trigger] rows@[j]).fields() == record_row(tv.0, tv.1[j]),
        decreases table.records.len() - k,
    {
        assert(tv.1[k as int] == cells(table.records@[k as int]@));
        match map_record(&table.header, &table.records[k]) {
            Some(row) => rows.push(row),
            None => {
                assert(!records_map(tv));
                return Err(SalesTsvError::Parse(String::from_str("record does not match the report columns")));
            },
        }
        k = k + 1;
    }
    match &table.read_error {
        Some(e) => Err(SalesTsvError::Parse(e.clone())),
        None => {
            assert(rows_view(rows@) =~= table_rows(tv));
            Ok(rows)
        },
    }
}

/// The rows that a gzip-compressed TSV sales report holds, or `None` where it does not
/// decompress or does not parse.
pub open spec fn parsed_sales_rows(data: Seq<u8>) -> Option<Seq<Seq<Seq<char>>>> {
    match gunzip(data) {
        Err(_) => None,
        Ok(text) => if table_parses(delimited_read(text, 9u8, true)) {
            Some(table_rows(delimited_read(text, 9u8, true)))
        } else {
            None
        },
    }
}

/// Two reports whose decompressed tables differ only in the order of their columns (the same
/// move applied to the header and to every record, the read outcome alike) give the same rows,
/// or both fail to parse.
pub proof fn lemma_parsed_rows_permuted(d1: Seq<u8>, d2: Seq<u8>, p: spec_fn(int) -> int, q: spec_fn(int) -> int)
    requires
        gunzip(d1) is Ok,
        gunzip(d2) is Ok,
        ({
            let t = delimited_read(gunzip(d1)->Ok_0, 9u8, true);
            let t2 = delimited_read(gunzip(d2)->Ok_0, 9u8, true);
            &&& t.0 is Some
            &&& t2.0 is Some
            &&& permutes(p, q, t.0.unwrap().len() as int)
            &&& cells_permuted(t.0.unwrap(), t2.0.unwrap(), p, t.0.unwrap().len() as int)
            &&& t.1.len() == t2.1.len()
            &&& forall|k: int| 0 <= k < t.1.len() ==> cells_permuted(#[trigger] t.1[k], t2.1[k], p, t.0.unwrap().len() as int)
            &&& t.2 == t2.2
        }),
    ensures
        parsed_sales_rows(d1) == parsed_sales_rows(d2),
{
    lemma_table_rows_permuted(
        delimited_read(gunzip(d1)->Ok_0, 9u8, true),
        delimited_read(gunzip(d2)->Ok_0, 9u8, true),
        p,
        q,
    );
}

/// Parses gzip-compressed TSV sales report data into structured rows.
///
/// The data is decompressed, then read as tab-separated values whose first row names the
/// columns (rows may have varying lengths), and every following row becomes a
/// [`SalesReportRow`].
pub fn parse_sales_tsv(data: &[u8]) -> (res: Result<Vec<SalesReportRow>, SalesTsvError>)
    ensures
        match gunzip(data@) {
            Err(msg) => res matches Err(SalesTsvError::Decompression(m)) && m@ == msg,
            Ok(text) => {
                &&& (res is Ok <==> table_parses(delimited_read(text, 9u8, true)))
                &&& (res matches Ok(rows) ==> rows_view(rows@) == table_rows(delimited_read(text, 9u8, true)))
                &&& (res matches Err(e) ==> e matches SalesTsvError::Parse(m)
                    && m@ == table_error_text(delimited_read(text, 9u8, true)))
            },
        },
{
    let text = match gzip_decompress(data) {
        Ok(v) => v,
        Err(msg) => return Err(SalesTsvError::Decompression(msg)),
    };
    let table = read_delimited(text.as_slice(), 9u8, true);
    sales_rows_from_table(&table)
}

} // verus!
