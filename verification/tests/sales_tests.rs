//! Tests for sales report TSV parsing.

use asc_mcp::models::sales::{sales_rows_from_table, TsvTable};
use asc_mcp::models::{parse_sales_tsv, SalesTsvError};
use flate2::write::GzEncoder;
use flate2::Compression;
use std::io::Write;

/// Helper: compress a string with gzip.
fn gzip_compress(data: &str) -> Vec<u8> {
    let mut encoder = GzEncoder::new(Vec::new(), Compression::default());
    encoder.write_all(data.as_bytes()).unwrap();
    encoder.finish().unwrap()
}

const HEADER: &str = "Provider\tProvider Country\tSKU\tDeveloper\tTitle\tVersion\t\
                      Product Type Identifier\tUnits\tDeveloper Proceeds\t\
                      Currency of Proceeds\tBegin Date\tEnd Date\tCustomer Currency\t\
                      Customer Price\tPromo Code\tParent Identifier\tSubscription\t\
                      Period\tCategory\tCMB\tDevice\tSupported Platforms\t\
                      Proceeds Reason\tPreserved Pricing\tClient\tOrder Type";

/// Minimal TSV header + one row matching SalesReportRow fields.
fn sample_tsv() -> String {
    let header = HEADER;
    let row = "APPLE\tUS\tCOOL001\tDev Inc\tMy App\t1.0\t1F\t100\t70.00\t\
               USD\t03/01/2026\t03/31/2026\tUSD\t0.99\t\tcom.example\t\t\t\
               Games\t\tiPhone\tiOS\t\t\tApp Store\tBuy";
    format!("{header}\n{row}\n")
}

fn cells(s: &str) -> Vec<String> {
    s.split('\t').map(String::from).collect()
}

#[test]
fn test_parse_sales_tsv_single_row() {
    let compressed = gzip_compress(&sample_tsv());
    let rows = parse_sales_tsv(&compressed).unwrap();
    assert_eq!(rows.len(), 1);
    assert_eq!(rows[0].provider, "APPLE");
    assert_eq!(rows[0].sku, "COOL001");
    assert_eq!(rows[0].units, "100");
    assert_eq!(rows[0].developer_proceeds, "70.00");
    assert_eq!(rows[0].currency_of_proceeds, "USD");
    assert_eq!(rows[0].title, "My App");
}

#[test]
fn test_parse_sales_tsv_multiple_rows() {
    let header = HEADER;
    let row1 = "APPLE\tUS\tSKU1\tDev\tApp1\t1.0\t1F\t50\t35.00\t\
                USD\t03/01/2026\t03/31/2026\tUSD\t0.99\t\t\t\t\tGames\t\t\
                iPhone\tiOS\t\t\tApp Store\tBuy";
    let row2 = "APPLE\tGB\tSKU2\tDev\tApp2\t2.0\t1F\t25\t17.50\t\
                GBP\t03/01/2026\t03/31/2026\tGBP\t0.79\t\t\t\t\tUtil\t\t\
                iPhone\tiOS\t\t\tApp Store\tBuy";
    let tsv = format!("{header}\n{row1}\n{row2}\n");
    let compressed = gzip_compress(&tsv);
    let rows = parse_sales_tsv(&compressed).unwrap();
    assert_eq!(rows.len(), 2);
    assert_eq!(rows[0].sku, "SKU1");
    assert_eq!(rows[1].sku, "SKU2");
    assert_eq!(rows[1].provider_country, "GB");
}

#[test]
fn test_parse_sales_tsv_invalid_gzip() {
    let result = parse_sales_tsv(b"not-gzip-data");
    assert!(result.is_err());
    let err = result.unwrap_err();
    assert!(matches!(err, SalesTsvError::Decompression(_)));
}

#[test]
fn test_parse_sales_tsv_empty_after_header() {
    let header = HEADER;
    let compressed = gzip_compress(&format!("{header}\n"));
    let rows = parse_sales_tsv(&compressed).unwrap();
    assert!(rows.is_empty());
}

#[test]
fn test_parse_sales_tsv_all_fields_in_order() {
    let compressed = gzip_compress(&sample_tsv());
    let row = &parse_sales_tsv(&compressed).unwrap()[0];
    assert_eq!(row.provider_country, "US");
    assert_eq!(row.developer, "Dev Inc");
    assert_eq!(row.version, "1.0");
    assert_eq!(row.product_type_identifier, "1F");
    assert_eq!(row.begin_date, "03/01/2026");
    assert_eq!(row.end_date, "03/31/2026");
    assert_eq!(row.customer_currency, "USD");
    assert_eq!(row.customer_price, "0.99");
    assert_eq!(row.promo_code, "");
    assert_eq!(row.parent_identifier, "com.example");
    assert_eq!(row.category, "Games");
    assert_eq!(row.device, "iPhone");
    assert_eq!(row.supported_platforms, "iOS");
    assert_eq!(row.client, "App Store");
    assert_eq!(row.order_type, "Buy");
}

#[test]
fn test_parse_sales_tsv_columns_by_name() {
    // Columns in another order, plus an extra column: fields follow the header names.
    let mut names: Vec<&str> = HEADER.split('\t').collect();
    names.reverse();
    names.push("Extra");
    let values: Vec<String> = names.iter().map(|n| format!("v:{n}")).collect();
    let tsv = format!("{}\n{}\n", names.join("\t"), values.join("\t"));
    let rows = parse_sales_tsv(&gzip_compress(&tsv)).unwrap();
    assert_eq!(rows[0].provider, "v:Provider");
    assert_eq!(rows[0].order_type, "v:Order Type");
    assert_eq!(rows[0].sku, "v:SKU");
}

#[test]
fn test_parse_sales_tsv_missing_column() {
    let header: Vec<&str> = HEADER.split('\t').filter(|c| *c != "SKU").collect();
    let row = vec!["x"; header.len()];
    let tsv = format!("{}\n{}\n", header.join("\t"), row.join("\t"));
    let err = parse_sales_tsv(&gzip_compress(&tsv)).unwrap_err();
    assert!(matches!(err, SalesTsvError::Parse(_)));
}

#[test]
fn test_parse_sales_tsv_short_row() {
    let tsv = format!("{HEADER}\nAPPLE\tUS\n");
    let err = parse_sales_tsv(&gzip_compress(&tsv)).unwrap_err();
    assert!(matches!(err, SalesTsvError::Parse(_)));
}

#[test]
fn test_rows_from_table_duplicate_column() {
    let mut header = cells(HEADER);
    header.push("SKU".to_string());
    let record = vec!["v".to_string(); header.len()];
    let table = TsvTable { header: Some(header), records: vec![record], read_error: Some("late".into()) };
    match sales_rows_from_table(&table) {
        Err(SalesTsvError::Parse(m)) => assert_eq!(m, "record does not match the report columns"),
        _ => panic!("expected a parse error"),
    }
}

#[test]
fn test_rows_from_table_without_header_is_positional() {
    let record: Vec<String> = (0..27).map(|i| format!("c{i}")).collect();
    let table = TsvTable { header: None, records: vec![record], read_error: None };
    let rows = sales_rows_from_table(&table).unwrap();
    assert_eq!(rows[0].provider, "c0");
    assert_eq!(rows[0].sku, "c2");
    assert_eq!(rows[0].order_type, "c25");
}

#[test]
fn test_rows_from_table_read_error() {
    let table = TsvTable { header: Some(cells(HEADER)), records: vec![], read_error: Some("boom".into()) };
    match sales_rows_from_table(&table) {
        Err(SalesTsvError::Parse(m)) => assert_eq!(m, "boom"),
        _ => panic!("expected a parse error"),
    }
}

#[test]
fn test_sales_error_messages() {
    assert_eq!(
        SalesTsvError::Decompression("bad header".into()).message(),
        "gzip decompression failed: bad header"
    );
    assert_eq!(SalesTsvError::Parse("oops".into()).message(), "TSV parse error: oops");
}

#[test]
fn test_parse_sales_tsv_decompression_error_text() {
    let mut out = Vec::new();
    let expected = std::io::Read::read_to_end(
        &mut flate2::read::GzDecoder::new(&b"not-gzip-data"[..]),
        &mut out,
    )
    .unwrap_err()
    .to_string();
    match parse_sales_tsv(b"not-gzip-data") {
        Err(SalesTsvError::Decompression(m)) => assert_eq!(m, expected),
        _ => panic!("expected a decompression error"),
    }
}

#[test]
fn test_parse_sales_tsv_mismatch_error_text() {
    let tsv = format!("{HEADER}\nAPPLE\tUS\n");
    match parse_sales_tsv(&gzip_compress(&tsv)) {
        Err(SalesTsvError::Parse(m)) => assert_eq!(m, "record does not match the report columns"),
        _ => panic!("expected a parse error"),
    }
}

#[test]
fn test_parse_sales_tsv_same_rows_for_permuted_columns() {
    let names: Vec<&str> = HEADER.split('\t').collect();
    let values: Vec<String> = names.iter().map(|n| format!("v:{n}")).collect();
    let plain = format!("{}\n{}\n", names.join("\t"), values.join("\t"));
    // Move the first column to the end, in the header and in the record alike.
    let mut pnames = names.clone();
    pnames.rotate_left(1);
    let mut pvalues = values.clone();
    pvalues.rotate_left(1);
    let permuted = format!("{}\n{}\n", pnames.join("\t"), pvalues.join("\t"));
    let a = parse_sales_tsv(&gzip_compress(&plain)).unwrap();
    let b = parse_sales_tsv(&gzip_compress(&permuted)).unwrap();
    assert_eq!(a.len(), 1);
    assert_eq!(b.len(), 1);
    assert_eq!(a[0].provider, b[0].provider);
    assert_eq!(a[0].sku, b[0].sku);
    assert_eq!(a[0].order_type, b[0].order_type);
    assert_eq!(a[0].customer_price, b[0].customer_price);
}
