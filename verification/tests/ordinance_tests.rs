use ordinance::error::{ArtifactKind, IngestError};
use ordinance::ordinance::OrdinanceSet;

fn header() -> &'static str {
    "county,state,subdivison,jurisdiction_type,FIPS,feature,value,units,offset,min_dist,max_dist,summary,ord_year,section,source"
}

fn basic() -> String {
    let mut output = String::new();
    output.push_str(header());
    output.push('\n');
    output.push_str("county-1,state-1,,jurisdiction_type-1,11111,feature-1,,,,,,,2001,,source-1\n");
    output.push_str("county-2,state-2,,jurisdiction_type-2,22222,feature-2,,,,,,,2002,,source-2\n");
    output
}

#[test]
fn csv_basic_rows_decode() {
    let set = OrdinanceSet::parse(&basic()).unwrap();

    assert_eq!(set.records.len(), 2);
    assert_eq!(set.skipped, 0);
    let r = &set.records[0];
    assert_eq!(r.county, "county-1");
    assert_eq!(r.state, "state-1");
    assert_eq!(r.subdivision, None);
    assert_eq!(r.jurisdiction_type.as_deref(), Some("jurisdiction_type-1"));
    assert_eq!(r.fips, 11111);
    assert_eq!(r.feature, "feature-1");
    assert_eq!(r.value, None);
    assert_eq!(r.ord_year, Some(2001));
    assert_eq!(r.source.as_deref(), Some("source-1"));
    assert_eq!(set.records[1].fips, 22222);
}

#[test]
fn csv_bad_rows_are_skipped_and_counted() {
    let mut text = String::new();
    text.push_str(header());
    text.push('\n');
    text.push_str("county-1,state-1,,,11111,feature-1,12.5,ft,,,,,2001,,src\n");
    text.push_str("county-2,state-2,,,not-a-fips,feature-2,,,,,,,,,\n");
    text.push_str("too,few,fields\n");
    text.push_str("county-3,state-3,,,33333,feature-3,not-a-number,,,,,,,,\n");
    text.push_str("county-4,state-4,,,44444,feature-4,,,,,,,,,\n");
    let set = OrdinanceSet::parse(&text).unwrap();

    assert_eq!(set.records.len(), 2);
    assert_eq!(set.skipped, 3);
    assert_eq!(set.records[0].value.as_deref(), Some("12.5"));
    assert_eq!(set.records[1].county, "county-4");
}

#[test]
fn csv_quoted_fields_decode() {
    let mut text = String::new();
    text.push_str(header());
    text.push('\n');
    text.push_str(
        "\"Washington, County\",state-1,,,11111,feature-1,,,,,,\"says \"\"max 500ft\"\"\",2001,,\n",
    );
    let set = OrdinanceSet::parse(&text).unwrap();

    assert_eq!(set.records.len(), 1);
    assert_eq!(set.skipped, 0);
    assert_eq!(set.records[0].county, "Washington, County");
    assert_eq!(set.records[0].summary.as_deref(), Some("says \"max 500ft\""));
}

#[test]
fn csv_numeric_text_is_kept_verbatim() {
    let mut text = String::new();
    text.push_str(header());
    text.push('\n');
    text.push_str("c,s,,,1,f,1.25e3,m,-0.5,.5,1e2,,1999,,\n");
    let set = OrdinanceSet::parse(&text).unwrap();

    assert_eq!(set.records.len(), 1);
    let r = &set.records[0];
    assert_eq!(r.value.as_deref(), Some("1.25e3"));
    assert_eq!(r.offset.as_deref(), Some("-0.5"));
    assert_eq!(r.min_dist.as_deref(), Some(".5"));
    assert_eq!(r.max_dist.as_deref(), Some("1e2"));
}

#[test]
fn csv_wrong_header_is_malformed() {
    let text = "county,state\nc,s\n";
    let err = OrdinanceSet::parse(text).unwrap_err();
    assert_eq!(err, IngestError::MalformedArtifact(ArtifactKind::Ordinances));
}

#[test]
fn csv_empty_text_is_an_empty_set() {
    let set = OrdinanceSet::parse("").unwrap();
    assert!(set.records.is_empty());
    assert_eq!(set.skipped, 0);
}

#[test]
fn csv_header_only_is_an_empty_set() {
    let set = OrdinanceSet::parse(&format!("{}\n", header())).unwrap();
    assert!(set.records.is_empty());
    assert_eq!(set.skipped, 0);
}

#[test]
fn csv_blank_lines_are_ignored() {
    let mut text = String::new();
    text.push('\n');
    text.push_str(header());
    text.push('\n');
    text.push('\n');
    text.push_str("c,s,,,1,f,,,,,,,,,\n");
    let set = OrdinanceSet::parse(&text).unwrap();

    assert_eq!(set.records.len(), 1);
    assert_eq!(set.skipped, 0);
}

#[test]
fn csv_unterminated_quote_counts_as_skipped_row() {
    let mut text = String::new();
    text.push_str(header());
    text.push('\n');
    text.push_str("\"unterminated,s,,,1,f,,,,,,,,,\n");
    let set = OrdinanceSet::parse(&text).unwrap();

    assert!(set.records.is_empty());
    assert_eq!(set.skipped, 1);
}
