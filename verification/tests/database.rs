use geoip_columns::address::{parse, Address};
use geoip_columns::config::DatabaseKind;
use geoip_columns::database::GeoDatabaseHandle;
use geoip_columns::registry::{DatabaseHandleRegistry, Step};
use geoip_columns::{
    invoke_wrapper, lookup_text, AttributeExtractor, GeoipASNState, GeoipAsnNumScalar,
    GeoipAsnOrgScalar, GeoipCityScalar, GeoipCityState, GeoipCountryIsoScalar,
};

// A value of the database format's data section.
enum Value {
    Text(&'static str),
    U16(u16),
    U32(u32),
    U64(u64),
    Table(Vec<(&'static str, Value)>),
    List(Vec<Value>),
}

fn control(kind: u8, size: usize, out: &mut Vec<u8>) {
    let low: u8 = if size < 29 { size as u8 } else { 29 };
    if kind < 8 {
        out.push((kind << 5) | low);
    } else {
        out.push(low);
        out.push(kind - 7);
    }
    if size >= 29 {
        assert!(size < 285);
        out.push((size - 29) as u8);
    }
}

fn trimmed(bytes: &[u8]) -> &[u8] {
    let zeros = bytes.iter().take_while(|b| **b == 0).count();
    &bytes[zeros..]
}

fn encode(value: &Value, out: &mut Vec<u8>) {
    match value {
        Value::Text(text) => {
            control(2, text.len(), out);
            out.extend_from_slice(text.as_bytes());
        }
        Value::U16(n) => {
            let bytes = n.to_be_bytes();
            control(5, trimmed(&bytes).len(), out);
            out.extend_from_slice(trimmed(&bytes));
        }
        Value::U32(n) => {
            let bytes = n.to_be_bytes();
            control(6, trimmed(&bytes).len(), out);
            out.extend_from_slice(trimmed(&bytes));
        }
        Value::U64(n) => {
            let bytes = n.to_be_bytes();
            control(9, trimmed(&bytes).len(), out);
            out.extend_from_slice(trimmed(&bytes));
        }
        Value::Table(entries) => {
            control(7, entries.len(), out);
            for (key, item) in entries {
                encode(&Value::Text(key), out);
                encode(item, out);
            }
        }
        Value::List(items) => {
            control(11, items.len(), out);
            for item in items {
                encode(item, out);
            }
        }
    }
}

#[derive(Clone, Copy)]
enum Slot {
    Empty,
    Node(usize),
    Data(usize),
}

// The first `len` bits of a 128-bit address.
fn prefix(groups: [u16; 8], len: usize) -> Vec<usize> {
    (0..len).map(|i| ((groups[i / 16] >> (15 - i % 16)) & 1) as usize).collect()
}

fn v4_prefix(octets: [u8; 4], len: usize) -> Vec<usize> {
    let high = u16::from_be_bytes([octets[0], octets[1]]);
    let low = u16::from_be_bytes([octets[2], octets[3]]);
    prefix([0, 0, 0, 0, 0, 0, high, low], 96 + len)
}

// A database image: a search tree over 128-bit addresses with 24-bit
// records, the data section and the metadata.
fn image(kind: &'static str, networks: &[(Vec<usize>, Value)]) -> Vec<u8> {
    let mut data: Vec<u8> = Vec::new();
    let mut nodes: Vec<[Slot; 2]> = vec![[Slot::Empty, Slot::Empty]];
    for (bits, record) in networks {
        let offset = data.len();
        encode(record, &mut data);
        let mut node = 0;
        for (i, bit) in bits.iter().enumerate() {
            if i + 1 == bits.len() {
                nodes[node][*bit] = Slot::Data(offset);
            } else {
                node = match nodes[node][*bit] {
                    Slot::Node(next) => next,
                    _ => {
                        let next = nodes.len();
                        nodes.push([Slot::Empty, Slot::Empty]);
                        nodes[node][*bit] = Slot::Node(next);
                        next
                    }
                };
            }
        }
    }
    let count = nodes.len();
    let mut out: Vec<u8> = Vec::new();
    for node in &nodes {
        for slot in node {
            let record = match slot {
                Slot::Empty => count,
                Slot::Node(next) => *next,
                Slot::Data(offset) => count + 16 + offset,
            };
            out.extend_from_slice(&(record as u32).to_be_bytes()[1..]);
        }
    }
    out.extend_from_slice(&[0u8; 16]);
    out.extend_from_slice(&data);
    out.extend_from_slice(b"\xab\xcd\xefMaxMind.com");
    let metadata = Value::Table(vec![
        ("binary_format_major_version", Value::U16(2)),
        ("binary_format_minor_version", Value::U16(0)),
        ("build_epoch", Value::U64(1_700_000_000)),
        ("database_type", Value::Text(kind)),
        ("description", Value::Table(vec![("en", Value::Text("fixture"))])),
        ("ip_version", Value::U16(6)),
        ("languages", Value::List(vec![Value::Text("en")])),
        ("node_count", Value::U32(count as u32)),
        ("record_size", Value::U16(24)),
    ]);
    encode(&metadata, &mut out);
    out
}

fn mapping(bytes: &[u8]) -> maxminddb::Mmap {
    let mut map = memmap2::MmapMut::map_anon(bytes.len()).unwrap();
    map.copy_from_slice(bytes);
    map.make_read_only().unwrap()
}

fn asn_image() -> Vec<u8> {
    image(
        "GeoLite2-ASN",
        &[
            (
                v4_prefix([8, 8, 8, 0], 24),
                Value::Table(vec![
                    ("autonomous_system_number", Value::U32(15169)),
                    ("autonomous_system_organization", Value::Text("GOOGLE")),
                ]),
            ),
            (
                v4_prefix([1, 1, 1, 1], 32),
                Value::Table(vec![("autonomous_system_number", Value::U32(13335))]),
            ),
            (
                v4_prefix([9, 9, 9, 9], 32),
                Value::Table(vec![("autonomous_system_organization", Value::Text("QUAD9-AS-1"))]),
            ),
            (
                prefix([0x2001, 0x4860, 0, 0, 0, 0, 0, 0], 32),
                Value::Table(vec![
                    ("autonomous_system_number", Value::U32(4294967295)),
                    ("autonomous_system_organization", Value::Text("GOOGLE")),
                ]),
            ),
        ],
    )
}

fn city_image() -> Vec<u8> {
    image(
        "GeoLite2-City",
        &[
            (
                v4_prefix([81, 2, 69, 160], 27),
                Value::Table(vec![
                    (
                        "city",
                        Value::Table(vec![
                            ("geoname_id", Value::U32(2643743)),
                            (
                                "names",
                                Value::Table(vec![
                                    ("de", Value::Text("London")),
                                    ("en", Value::Text("London")),
                                    ("fr", Value::Text("Londres")),
                                ]),
                            ),
                        ]),
                    ),
                    (
                        "country",
                        Value::Table(vec![
                            ("geoname_id", Value::U32(2635167)),
                            ("iso_code", Value::Text("GB")),
                        ]),
                    ),
                ]),
            ),
            (
                prefix([0x2001, 0x218, 0, 0, 0, 0, 0, 0], 32),
                Value::Table(vec![
                    (
                        "city",
                        Value::Table(vec![(
                            "names",
                            Value::Table(vec![("en", Value::Text("Tokyo")), ("ja", Value::Text("東京"))]),
                        )]),
                    ),
                    ("country", Value::Table(vec![("iso_code", Value::Text("JP"))])),
                ]),
            ),
            (
                v4_prefix([2, 2, 2, 2], 32),
                Value::Table(vec![("country", Value::Table(vec![("iso_code", Value::Text("FR"))]))]),
            ),
            (
                v4_prefix([3, 3, 3, 3], 32),
                Value::Table(vec![
                    ("city", Value::Table(vec![("names", Value::Table(vec![("fr", Value::Text("Cologne"))]))])),
                    ("country", Value::Table(vec![("geoname_id", Value::U32(2921044))])),
                ]),
            ),
            (
                v4_prefix([4, 4, 4, 4], 32),
                Value::Table(vec![("city", Value::Table(vec![("geoname_id", Value::U32(1))]))]),
            ),
        ],
    )
}

fn asn_state() -> GeoipASNState {
    GeoipASNState::load(mapping(&asn_image()), None).unwrap()
}

fn city_state() -> GeoipCityState {
    GeoipCityState::load(mapping(&city_image()), None).unwrap()
}

fn cell(text: &str) -> Option<Vec<u8>> {
    Some(text.as_bytes().to_vec())
}

fn one<E: AttributeExtractor>(state: &E::State, text: &str) -> String {
    let output = invoke_wrapper::<E>(state, &vec![cell(text)]);
    assert_eq!(output.len(), 1);
    output[0].clone()
}

#[test]
fn asn_organization_and_number_of_known_address() {
    let state = asn_state();
    assert_eq!(one::<GeoipAsnOrgScalar>(&state, "8.8.8.8"), "GOOGLE");
    assert_eq!(one::<GeoipAsnNumScalar>(&state, "8.8.8.8"), "15169");
    assert_eq!(
        GeoipAsnOrgScalar::lookup_ip(&state, b"8.8.8.8"),
        Some("GOOGLE".to_string())
    );
    assert_eq!(
        GeoipAsnNumScalar::lookup_ip(&state, b"8.8.8.8"),
        Some("15169".to_string())
    );
}

#[test]
fn whole_network_resolves() {
    let state = asn_state();
    assert_eq!(one::<GeoipAsnNumScalar>(&state, "8.8.8.0"), "15169");
    assert_eq!(one::<GeoipAsnNumScalar>(&state, "8.8.8.255"), "15169");
    assert_eq!(one::<GeoipAsnNumScalar>(&state, "8.8.9.0"), "");
    assert_eq!(one::<GeoipAsnNumScalar>(&state, "8.8.7.255"), "");
}

#[test]
fn largest_number_is_rendered_in_full() {
    let state = asn_state();
    assert_eq!(one::<GeoipAsnNumScalar>(&state, "2001:4860::1"), "4294967295");
    assert_eq!(one::<GeoipAsnOrgScalar>(&state, "2001:4860:ffff::"), "GOOGLE");
}

#[test]
fn null_rows_give_empty_text() {
    let asn = asn_state();
    let city = city_state();
    let input: Vec<Option<Vec<u8>>> = vec![None];
    assert_eq!(invoke_wrapper::<GeoipAsnOrgScalar>(&asn, &input), vec![String::new()]);
    assert_eq!(invoke_wrapper::<GeoipAsnNumScalar>(&asn, &input), vec![String::new()]);
    assert_eq!(invoke_wrapper::<GeoipCityScalar>(&city, &input), vec![String::new()]);
    assert_eq!(invoke_wrapper::<GeoipCountryIsoScalar>(&city, &input), vec![String::new()]);
}

#[test]
fn text_that_is_no_address_gives_empty_text() {
    let asn = asn_state();
    let city = city_state();
    assert_eq!(one::<GeoipAsnOrgScalar>(&asn, "not-an-ip"), "");
    assert_eq!(one::<GeoipAsnNumScalar>(&asn, "not-an-ip"), "");
    assert_eq!(one::<GeoipCityScalar>(&city, "not-an-ip"), "");
    assert_eq!(one::<GeoipCountryIsoScalar>(&city, "not-an-ip"), "");
    assert_eq!(GeoipAsnOrgScalar::lookup_ip(&asn, b"not-an-ip"), None);
    assert_eq!(GeoipAsnNumScalar::lookup_ip(&asn, b"not-an-ip"), None);
    assert_eq!(GeoipCityScalar::lookup_ip(&city, b"not-an-ip"), None);
    assert_eq!(GeoipCountryIsoScalar::lookup_ip(&city, b"not-an-ip"), None);
    assert_eq!(one::<GeoipAsnOrgScalar>(&asn, ""), "");
    assert_eq!(one::<GeoipCityScalar>(&city, "8.8.8.8.8"), "");
}

#[test]
fn bytes_that_are_no_text_give_empty_text() {
    let asn = asn_state();
    let input = vec![Some(vec![0x38, 0x2e, 0x38, 0x2e, 0x38, 0x2e, 0x38, 0xff]), Some(vec![0xc3])];
    assert_eq!(
        invoke_wrapper::<GeoipAsnOrgScalar>(&asn, &input),
        vec![String::new(), String::new()]
    );
    assert_eq!(GeoipAsnOrgScalar::lookup_ip(&asn, &[0xff, 0xfe]), None);
}

#[test]
fn city_name_and_country_of_known_address() {
    let city = city_state();
    assert_eq!(one::<GeoipCityScalar>(&city, "81.2.69.160"), "London");
    assert_eq!(one::<GeoipCountryIsoScalar>(&city, "81.2.69.160"), "GB");
    assert_eq!(one::<GeoipCityScalar>(&city, "81.2.69.191"), "London");
    assert_eq!(one::<GeoipCityScalar>(&city, "81.2.69.192"), "");
}

#[test]
fn ipv6_literal_resolves_like_ipv4() {
    let city = city_state();
    let name = one::<GeoipCityScalar>(&city, "2001:218::1");
    let iso = one::<GeoipCountryIsoScalar>(&city, "2001:218::1");
    assert_eq!(name, "Tokyo");
    assert_eq!(iso, "JP");
    assert!(!name.is_empty() && !iso.is_empty());
    assert_eq!(
        one::<GeoipCityScalar>(&city, "::81.2.69.160"),
        one::<GeoipCityScalar>(&city, "81.2.69.160")
    );
    assert_eq!(
        one::<GeoipCountryIsoScalar>(&city, "::5102:45a0"),
        one::<GeoipCountryIsoScalar>(&city, "81.2.69.160")
    );
    assert_eq!(one::<GeoipCountryIsoScalar>(&city, "0:0:0:0:0:0:81.2.69.160"), "GB");
}

#[test]
fn missing_links_give_empty_text() {
    let asn = asn_state();
    let city = city_state();
    assert_eq!(one::<GeoipAsnOrgScalar>(&asn, "1.1.1.1"), "");
    assert_eq!(one::<GeoipAsnNumScalar>(&asn, "1.1.1.1"), "13335");
    assert_eq!(one::<GeoipAsnOrgScalar>(&asn, "9.9.9.9"), "QUAD9-AS-1");
    assert_eq!(one::<GeoipAsnNumScalar>(&asn, "9.9.9.9"), "");
    // no city block
    assert_eq!(one::<GeoipCityScalar>(&city, "2.2.2.2"), "");
    assert_eq!(one::<GeoipCountryIsoScalar>(&city, "2.2.2.2"), "FR");
    // names without the locale; country block without a code
    assert_eq!(one::<GeoipCityScalar>(&city, "3.3.3.3"), "");
    assert_eq!(one::<GeoipCountryIsoScalar>(&city, "3.3.3.3"), "");
    // city block without names; no country block
    assert_eq!(one::<GeoipCityScalar>(&city, "4.4.4.4"), "");
    assert_eq!(one::<GeoipCountryIsoScalar>(&city, "4.4.4.4"), "");
    // address that no network holds
    assert_eq!(one::<GeoipCityScalar>(&city, "10.0.0.1"), "");
    assert_eq!(one::<GeoipAsnNumScalar>(&asn, "::1"), "");
    assert_eq!(GeoipCityScalar::lookup_ip(&city, b"10.0.0.1"), None);
}

#[test]
fn records_hold_the_decoded_fields() {
    let asn = asn_state();
    let city = city_state();
    let record = asn.reader().asn_record(&Address::V4([8, 8, 8, 8])).unwrap();
    assert_eq!(record.number, Some(15169));
    assert_eq!(record.organization, Some("GOOGLE".to_string()));
    assert!(asn.reader().asn_record(&Address::V4([10, 0, 0, 1])).is_none());
    let record = city.reader().city_record(&parse("81.2.69.161").unwrap()).unwrap();
    let names = record.city.unwrap().names.unwrap();
    let pairs: Vec<(String, String)> =
        names.into_iter().map(|n| (n.locale, n.name)).collect();
    assert_eq!(
        pairs,
        vec![
            ("de".to_string(), "London".to_string()),
            ("en".to_string(), "London".to_string()),
            ("fr".to_string(), "Londres".to_string()),
        ]
    );
    assert_eq!(record.country.unwrap().iso_code, Some("GB".to_string()));
}

#[test]
fn output_is_aligned_with_input() {
    let asn = asn_state();
    let input = vec![
        cell("8.8.8.8"),
        None,
        cell("not-an-ip"),
        cell("1.1.1.1"),
        cell("10.0.0.1"),
        None,
        cell("2001:4860::8888"),
        cell(" 8.8.8.8"),
    ];
    assert_eq!(
        invoke_wrapper::<GeoipAsnNumScalar>(&asn, &input),
        vec!["15169", "", "", "13335", "", "", "4294967295", ""]
    );
    assert_eq!(
        invoke_wrapper::<GeoipAsnOrgScalar>(&asn, &input),
        vec!["GOOGLE", "", "", "", "", "", "GOOGLE", ""]
    );
    let empty: Vec<Option<Vec<u8>>> = Vec::new();
    assert!(invoke_wrapper::<GeoipAsnOrgScalar>(&asn, &empty).is_empty());
}

#[test]
fn repeated_calls_give_the_same_output() {
    let asn = asn_state();
    let city = city_state();
    let input = vec![cell("8.8.8.8"), None, cell("81.2.69.160"), cell("x")];
    let first = invoke_wrapper::<GeoipAsnOrgScalar>(&asn, &input);
    for _ in 0..5 {
        assert_eq!(invoke_wrapper::<GeoipAsnOrgScalar>(&asn, &input), first);
    }
    let first = invoke_wrapper::<GeoipCityScalar>(&city, &input);
    assert_eq!(first, vec!["", "", "London", ""]);
    for _ in 0..5 {
        assert_eq!(invoke_wrapper::<GeoipCityScalar>(&city, &input), first);
    }
}

#[test]
fn column_in_parts_gives_the_output_of_the_whole() {
    let city = city_state();
    let input = vec![cell("81.2.69.160"), None, cell("2001:218::"), cell("2.2.2.2"), cell("?")];
    let whole = invoke_wrapper::<GeoipCountryIsoScalar>(&city, &input);
    assert_eq!(whole, vec!["GB", "", "JP", "FR", ""]);
    for cut in 0..=input.len() {
        let mut parts = invoke_wrapper::<GeoipCountryIsoScalar>(&city, &input[..cut].to_vec());
        parts.extend(invoke_wrapper::<GeoipCountryIsoScalar>(&city, &input[cut..].to_vec()));
        assert_eq!(parts, whole);
    }
}

#[test]
fn text_lookup_agrees_with_cell_lookup() {
    let asn = asn_state();
    assert_eq!(
        lookup_text::<GeoipAsnOrgScalar>(&asn, "8.8.8.8"),
        Some("GOOGLE".to_string())
    );
    assert_eq!(lookup_text::<GeoipAsnOrgScalar>(&asn, "8.8.8"), None);
    assert_eq!(
        GeoipAsnNumScalar::extract(&asn, &Address::V4([8, 8, 8, 200])),
        Some("15169".to_string())
    );
}

#[test]
fn bytes_that_are_no_database_are_refused() {
    let garbage = vec![7u8; 64];
    let failure = GeoipASNState::load(mapping(&garbage), Some("/srv/geo")).err().unwrap();
    assert_eq!(failure.kind, DatabaseKind::Asn);
    assert_eq!(failure.path, "/srv/geo/GeoLite2-ASN.mmdb");
    assert_eq!(
        failure.message(),
        "Could not load mmdb file, trying to read /srv/geo/GeoLite2-ASN.mmdb. Use MAXMIND_MMDB_DIR"
    );
    let failure = GeoipCityState::load(mapping(&garbage), None).err().unwrap();
    assert_eq!(failure.kind, DatabaseKind::City);
    assert_eq!(failure.path, "/usr/share/GeoIP/GeoLite2-City.mmdb");
    let failure = GeoDatabaseHandle::load(mapping(&garbage), DatabaseKind::City, "x".to_string())
        .err()
        .unwrap();
    assert_eq!(failure.path, "x");
}

#[test]
fn missing_file_is_reported_with_its_path() {
    let registry = DatabaseHandleRegistry::new(Some("/nonexistent/geoip".to_string()));
    let path = match registry.step(DatabaseKind::Asn) {
        Step::Open(path) => path,
        Step::Ready => panic!("nothing is loaded yet"),
    };
    assert_eq!(path, "/nonexistent/geoip/GeoLite2-ASN.mmdb");
    assert!(maxminddb::Reader::open_mmap(&path).is_err());
    let failure = geoip_columns::config::DatabaseUnavailable { kind: DatabaseKind::Asn, path };
    let message = failure.message();
    assert!(message.contains("/nonexistent/geoip/GeoLite2-ASN.mmdb"));
    assert!(message.contains("MAXMIND_MMDB_DIR"));
    assert!(registry.acquire_asn().is_none());
}

#[test]
fn registry_installs_each_kind_once() {
    let mut registry = DatabaseHandleRegistry::new(None);
    assert!(!registry.is_loaded(DatabaseKind::Asn));
    assert!(!registry.is_loaded(DatabaseKind::City));
    assert!(registry.acquire_asn().is_none());
    assert!(registry.acquire_city().is_none());

    assert_eq!(registry.install(DatabaseKind::Asn, mapping(&asn_image())).unwrap(), true);
    assert!(registry.is_loaded(DatabaseKind::Asn));
    assert!(!registry.is_loaded(DatabaseKind::City));
    assert!(matches!(registry.step(DatabaseKind::Asn), Step::Ready));
    assert!(matches!(registry.step(DatabaseKind::City), Step::Open(_)));
    assert_eq!(one::<GeoipAsnNumScalar>(registry.acquire_asn().unwrap(), "8.8.8.8"), "15169");

    // a second mapping for the same kind is not read: the first database stays
    let other = image(
        "GeoLite2-ASN",
        &[(
            v4_prefix([8, 8, 8, 8], 32),
            Value::Table(vec![("autonomous_system_number", Value::U32(1))]),
        )],
    );
    assert_eq!(registry.install(DatabaseKind::Asn, mapping(&other)).unwrap(), false);
    assert_eq!(one::<GeoipAsnNumScalar>(registry.acquire_asn().unwrap(), "8.8.8.8"), "15169");
    assert_eq!(registry.install(DatabaseKind::Asn, mapping(&[7u8; 64])).unwrap(), false);
    assert_eq!(one::<GeoipAsnOrgScalar>(registry.acquire_asn().unwrap(), "8.8.8.8"), "GOOGLE");

    assert_eq!(registry.install(DatabaseKind::City, mapping(&city_image())).unwrap(), true);
    assert_eq!(one::<GeoipCityScalar>(registry.acquire_city().unwrap(), "81.2.69.160"), "London");
    assert_eq!(one::<GeoipAsnNumScalar>(registry.acquire_asn().unwrap(), "8.8.8.8"), "15169");
}

#[test]
fn registry_stays_empty_when_a_mapping_is_refused() {
    let mut registry = DatabaseHandleRegistry::new(Some("/data/".to_string()));
    let failure = registry.install(DatabaseKind::City, mapping(&[7u8; 64])).err().unwrap();
    assert_eq!(failure.kind, DatabaseKind::City);
    assert_eq!(failure.path, "/data/GeoLite2-City.mmdb");
    assert!(!registry.is_loaded(DatabaseKind::City));
    assert!(registry.acquire_city().is_none());
    assert_eq!(registry.expected_path(DatabaseKind::City), "/data/GeoLite2-City.mmdb");
    assert_eq!(registry.install(DatabaseKind::City, mapping(&city_image())).unwrap(), true);
    assert_eq!(one::<GeoipCountryIsoScalar>(registry.acquire_city().unwrap(), "81.2.69.160"), "GB");
}
