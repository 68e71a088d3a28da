use geoip_columns::config::{database_path, directory_variable, DatabaseKind, DatabaseUnavailable};
use geoip_columns::record::{find_name, AsnRecord, CityBlock, CityRecord, CountryBlock, LocalName};
use geoip_columns::text::{decimal, or_empty};

#[test]
fn default_directory_is_used_when_none_is_configured() {
    assert_eq!(database_path(None, DatabaseKind::Asn), "/usr/share/GeoIP/GeoLite2-ASN.mmdb");
    assert_eq!(database_path(None, DatabaseKind::City), "/usr/share/GeoIP/GeoLite2-City.mmdb");
}

#[test]
fn configured_directory_is_joined_with_the_file_name() {
    assert_eq!(database_path(Some("/data"), DatabaseKind::Asn), "/data/GeoLite2-ASN.mmdb");
    assert_eq!(database_path(Some("/data/"), DatabaseKind::Asn), "/data/GeoLite2-ASN.mmdb");
    assert_eq!(database_path(Some("/"), DatabaseKind::City), "/GeoLite2-City.mmdb");
    assert_eq!(database_path(Some(""), DatabaseKind::City), "GeoLite2-City.mmdb");
    assert_eq!(database_path(Some("rel/é"), DatabaseKind::City), "rel/é/GeoLite2-City.mmdb");
    assert_eq!(database_path(Some("a//"), DatabaseKind::City), "a//GeoLite2-City.mmdb");
}

#[test]
fn path_agrees_with_std_join() {
    for dir in ["", "/", "/data", "/data/", "rel", "rel/sub/", "/usr/share/GeoIP", "é/"] {
        for kind in [DatabaseKind::Asn, DatabaseKind::City] {
            let expected = std::path::Path::new(dir).join(kind.file());
            assert_eq!(database_path(Some(dir), kind), expected.to_str().unwrap());
        }
    }
}

#[test]
fn file_names_and_variable() {
    assert_eq!(DatabaseKind::Asn.file(), "GeoLite2-ASN.mmdb");
    assert_eq!(DatabaseKind::City.file(), "GeoLite2-City.mmdb");
    assert_eq!(directory_variable(), "MAXMIND_MMDB_DIR");
}

#[test]
fn failure_message_names_path_and_variable() {
    let failure = DatabaseUnavailable {
        kind: DatabaseKind::City,
        path: "/nowhere/GeoLite2-City.mmdb".to_string(),
    };
    assert_eq!(
        failure.message(),
        "Could not load mmdb file, trying to read /nowhere/GeoLite2-City.mmdb. Use MAXMIND_MMDB_DIR"
    );
}

#[test]
fn decimal_rendering() {
    assert_eq!(decimal(0), "0");
    assert_eq!(decimal(9), "9");
    assert_eq!(decimal(10), "10");
    assert_eq!(decimal(15169), "15169");
    assert_eq!(decimal(1000000), "1000000");
    assert_eq!(decimal(4294967295), "4294967295");
    for n in [1u32, 42, 99, 100, 101, 65535, 65536, 123456789] {
        assert_eq!(decimal(n), n.to_string());
    }
}

#[test]
fn absent_value_is_empty_text() {
    assert_eq!(or_empty(None), "");
    assert_eq!(or_empty(Some("GB".to_string())), "GB");
    assert_eq!(or_empty(Some(String::new())), "");
}

fn name(locale: &str, name: &str) -> LocalName {
    LocalName { locale: locale.to_string(), name: name.to_string() }
}

#[test]
fn name_is_found_by_locale() {
    let names = vec![name("de", "Köln"), name("en", "Cologne"), name("fr", "Cologne-sur-Rhin")];
    assert_eq!(find_name(&names, &"en".to_string()), Some("Cologne".to_string()));
    assert_eq!(find_name(&names, &"de".to_string()), Some("Köln".to_string()));
    assert_eq!(find_name(&names, &"es".to_string()), None);
    assert_eq!(find_name(&names, &"EN".to_string()), None);
    assert_eq!(find_name(&Vec::new(), &"en".to_string()), None);
    let twice = vec![name("en", "first"), name("en", "second")];
    assert_eq!(find_name(&twice, &"en".to_string()), Some("first".to_string()));
}

#[test]
fn attributes_of_records() {
    let record = AsnRecord { number: Some(64512), organization: Some("EXAMPLE".to_string()) };
    assert_eq!(record.number_text(), Some("64512".to_string()));
    assert_eq!(record.organization_text(), Some("EXAMPLE".to_string()));
    let bare = AsnRecord { number: None, organization: None };
    assert_eq!(bare.number_text(), None);
    assert_eq!(bare.organization_text(), None);

    let record = CityRecord {
        city: Some(CityBlock { names: Some(vec![name("en", "Paris"), name("ja", "パリ")]) }),
        country: Some(CountryBlock { iso_code: Some("FR".to_string()) }),
    };
    assert_eq!(record.city_name(), Some("Paris".to_string()));
    assert_eq!(record.country_iso(), Some("FR".to_string()));
    let record = CityRecord {
        city: Some(CityBlock { names: Some(vec![name("ja", "パリ")]) }),
        country: Some(CountryBlock { iso_code: None }),
    };
    assert_eq!(record.city_name(), None);
    assert_eq!(record.country_iso(), None);
    let record = CityRecord { city: Some(CityBlock { names: None }), country: None };
    assert_eq!(record.city_name(), None);
    assert_eq!(record.country_iso(), None);
    let record = CityRecord { city: None, country: None };
    assert_eq!(record.city_name(), None);
}
