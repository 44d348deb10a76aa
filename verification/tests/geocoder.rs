use revgeo::geocoder::Address;
use revgeo::geocoder::Config;
use revgeo::geocoder::Location;
use revgeo::geocoder::ReverseGeocoder;
use revgeo::geocoder::UserLocation;

const EARTH_RADIUS_M: f32 = 6371.01e3;

/// The engine's distance formula (haversine on a sphere), computed here in
/// floating point to feed the engine its per-address distance keys.
fn haversine_m(a: &Location, b: &Location) -> f32 {
    let lat1 = f32::from_bits(a.latitude).to_radians();
    let lon1 = f32::from_bits(a.longitude).to_radians();
    let lat2 = f32::from_bits(b.latitude).to_radians();
    let lon2 = f32::from_bits(b.longitude).to_radians();
    let d_lat = lat2 - lat1;
    let d_lon = lon2 - lon1;
    let h = (d_lat / 2.).sin() * (d_lat / 2.).sin()
        + lat1.cos() * lat2.cos() * (d_lon / 2.).sin() * (d_lon / 2.).sin();
    let c = 2. * h.sqrt().atan2((1. - h).sqrt());
    EARTH_RADIUS_M * c
}

fn loc(latitude: f32, longitude: f32) -> Location {
    Location { latitude: latitude.to_bits(), longitude: longitude.to_bits() }
}

fn addr(latitude: f32, longitude: f32, town: &str) -> Address {
    Address {
        location: loc(latitude, longitude),
        prefecture: "pref".to_string(),
        municipality: "muni".to_string(),
        town: town.to_string(),
    }
}

fn config() -> Config {
    Config { max_accuracy: 100.0f32.to_bits(), max_distance: 1000.0f32.to_bits() }
}

fn keys_for(gc: &ReverseGeocoder, query: &Location) -> Vec<u32> {
    gc.addresses().iter().map(|a| haversine_m(&a.location, query).to_bits()).collect()
}

#[test]
fn test_location_dist() {
    // Exercises the distance formula as the host program computes it (the
    // helper above; the verified library only consumes the resulting keys).
    let tokyo = loc(35.681236, 139.767125);
    let shinagawa = loc(35.628471, 139.738760);
    assert!((haversine_m(&tokyo, &shinagawa) - 6402.453).abs() < f32::EPSILON);
}

#[test]
fn test_distance_zero_and_symmetric() {
    let a = loc(35.681236, 139.767125);
    let b = loc(35.628471, 139.738760);
    assert!(haversine_m(&a, &a).abs() < f32::EPSILON);
    assert_eq!(haversine_m(&a, &b).to_bits(), haversine_m(&b, &a).to_bits());
}

#[test]
fn test_empty_dataset_no_match() {
    let gc = ReverseGeocoder::new(config());
    let user = UserLocation { location: loc(35.0, 139.0), accuracy: 1.0f32.to_bits() };
    let keys = keys_for(&gc, &user.location);
    assert_eq!(gc.reverse(&user, &keys), None);
}

#[test]
fn test_nearest_of_two_wins() {
    // One address about 50 m north of the query, one about 500 m north.
    let mut gc = ReverseGeocoder::new(config());
    gc.add(addr(35.00045, 139.0, "near"));
    gc.add(addr(35.0045, 139.0, "far"));
    let user = UserLocation { location: loc(35.0, 139.0), accuracy: 1.0f32.to_bits() };
    let keys = keys_for(&gc, &user.location);
    assert!(f32::from_bits(keys[0]) > 40.0 && f32::from_bits(keys[0]) < 60.0);
    assert!(f32::from_bits(keys[1]) > 400.0 && f32::from_bits(keys[1]) < 600.0);
    let hit = gc.reverse(&user, &keys).expect("an address within range");
    assert_eq!(hit.town, "near");
}

#[test]
fn test_out_of_range_no_match() {
    // A single address about 2000 m away, past the 1000 m bound.
    let mut gc = ReverseGeocoder::new(config());
    gc.add(addr(35.018, 139.0, "away"));
    let user = UserLocation { location: loc(35.0, 139.0), accuracy: 1.0f32.to_bits() };
    let keys = keys_for(&gc, &user.location);
    assert!(f32::from_bits(keys[0]) > 1500.0);
    assert_eq!(gc.reverse(&user, &keys), None);
}

#[test]
fn test_nan_distance_never_matches() {
    // A degenerate coordinate makes the distance not-a-number; its key must
    // fail the filter rather than win the reduction.
    let mut gc = ReverseGeocoder::new(config());
    gc.add(addr(f32::NAN, 139.0, "broken"));
    gc.add(addr(35.00045, 139.0, "near"));
    let user = UserLocation { location: loc(35.0, 139.0), accuracy: 1.0f32.to_bits() };
    let keys = keys_for(&gc, &user.location);
    assert!(f32::from_bits(keys[0]).is_nan());
    let hit = gc.reverse(&user, &keys).expect("an address within range");
    assert_eq!(hit.town, "near");
}

#[test]
fn test_tie_goes_to_first_inserted() {
    let mut gc = ReverseGeocoder::new(config());
    gc.add(addr(35.00045, 139.0, "first"));
    gc.add(addr(35.00045, 139.0, "second"));
    let user = UserLocation { location: loc(35.0, 139.0), accuracy: 1.0f32.to_bits() };
    let keys = keys_for(&gc, &user.location);
    assert_eq!(keys[0], keys[1]);
    let hit = gc.reverse(&user, &keys).expect("an address within range");
    assert_eq!(hit.town, "first");
}

#[test]
fn test_reverse_idempotent() {
    let mut gc = ReverseGeocoder::new(config());
    gc.add(addr(35.00045, 139.0, "near"));
    gc.add(addr(35.0045, 139.0, "far"));
    let user = UserLocation { location: loc(35.0, 139.0), accuracy: 1.0f32.to_bits() };
    let keys = keys_for(&gc, &user.location);
    let first = gc.reverse(&user, &keys);
    let second = gc.reverse(&user, &keys);
    assert_eq!(first, second);
}

#[test]
fn test_accuracy_clamped_to_maximum() {
    let gc = ReverseGeocoder::new(config());
    let coarse = UserLocation { location: loc(35.0, 139.0), accuracy: 250.0f32.to_bits() };
    let fine = UserLocation { location: loc(35.0, 139.0), accuracy: 3.0f32.to_bits() };
    assert_eq!(gc.clamped_accuracy(&coarse), 100.0f32.to_bits());
    assert_eq!(gc.clamped_accuracy(&fine), 3.0f32.to_bits());
}
