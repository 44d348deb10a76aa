use revgeo::geocoder::Address;
use revgeo::geocoder::Location;
use revgeo::geolonia::parse_geolonia;
use revgeo::geolonia::record_to_address;
use revgeo::geolonia::GeoloniaRecord;
use revgeo::geolonia::ParseAddressError;

/// Parses a line all the way to an address, turning the two coordinate
/// fields into bit patterns as the host program does.
fn parse_line(line: &str) -> Result<Address, ParseAddressError> {
    let record = parse_geolonia(line)?;
    let latitude = record.latitude.parse::<f32>().ok().map(f32::to_bits);
    let longitude = record.longitude.parse::<f32>().ok().map(f32::to_bits);
    record_to_address(record, latitude, longitude)
}

#[test]
fn test_parse_address() {
    let line = r#""01","北海道","ホッカイドウ","HOKKAIDO","01101","札幌市中央区","サッポロシチュウオウク","SAPPORO SHI CHUO KU","011010001001","旭ケ丘一丁目","43.042230","141.319722""#;
    let address = parse_line(line);

    assert_eq!(
        address,
        Ok(Address {
            location: Location {
                latitude: 43.042230f32.to_bits(),
                longitude: 141.319722f32.to_bits(),
            },
            prefecture: "北海道".to_string(),
            municipality: "札幌市中央区".to_string(),
            town: "旭ケ丘一丁目".to_string(),
        })
    );
}

#[test]
fn test_record_keeps_coordinate_text() {
    let rec = parse_geolonia("a,p,b,c,d,m,e,f,g,t,1.5,2.5");
    assert_eq!(
        rec,
        Ok(GeoloniaRecord {
            prefecture: "p".to_string(),
            municipality: "m".to_string(),
            town: "t".to_string(),
            latitude: "1.5".to_string(),
            longitude: "2.5".to_string(),
            extra: false,
        })
    );
}

#[test]
fn test_eleven_fields_lacking() {
    let line = "a,b,c,d,e,f,g,h,i,j,k";
    assert_eq!(parse_geolonia(line), Err(ParseAddressError::LackingField));
}

#[test]
fn test_thirteen_fields_too_many() {
    let line = "a,b,c,d,e,f,g,h,i,j,1.0,2.0,m";
    assert_eq!(parse_line(line), Err(ParseAddressError::TooManyField));
}

#[test]
fn test_bad_latitude_beats_extra_field() {
    // The coordinate fields' numeric check comes before the extra-field
    // check: field eleven fails first.
    let line = "a,b,c,d,e,f,g,h,i,j,abc,2.0,m";
    assert_eq!(parse_line(line), Err(ParseAddressError::InvalidFloat));
}

#[test]
fn test_bad_latitude_invalid_float() {
    let line = "a,b,c,d,e,f,g,h,i,j,abc,2.0";
    assert_eq!(parse_line(line), Err(ParseAddressError::InvalidFloat));
}

#[test]
fn test_malformed_field_rejected() {
    let line = r#"a,"b"x,c,d,e,f,g,h,i,j,1.0,2.0"#;
    assert_eq!(parse_geolonia(line), Err(ParseAddressError::InvaleFieldFormat));
}

#[test]
fn test_trailing_comma_counts_as_empty_thirteenth() {
    let line = "a,b,c,d,e,f,g,h,i,j,1.0,2.0,";
    assert_eq!(parse_line(line), Err(ParseAddressError::TooManyField));
}
