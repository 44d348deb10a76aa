//! The nearest-match engine: an append-only dataset of addresses and a query
//! that filters them by distance and reduces to the closest one.
//!
//! Verified code carries no floating-point values, so every coordinate and
//! every meter threshold is held as the bit pattern of its IEEE 754
//! single-precision value.  All distances are non-negative, and on
//! non-negative values the unsigned order of the bit patterns agrees with the
//! numeric order of the values; every not-a-number pattern is larger than the
//! pattern of any finite value, so the strict filter below excludes
//! not-a-number distances and the minimum reduction runs over a total order
//! that such a value can never win.

use vstd::prelude::*;
use rayon::iter::IntoParallelRefIterator;
use rayon::iter::ParallelIterator;

verus! {

/// A pure geographic position: latitude and longitude in degrees, each held
/// as the bit pattern of its single-precision value.
#[derive(Debug, Clone, Copy, PartialEq)]
pub struct Location {
    /// Latitude in degrees, as a bit pattern.
    pub latitude: u32,
    /// Longitude in degrees, as a bit pattern.
    pub longitude: u32,
}

/// A measured position: where the user is, and how precise the fix is.
#[derive(Debug, Clone, Copy)]
pub struct UserLocation {
    /// The user's position.
    pub location: Location,
    /// The accuracy of the fix, in meters, as a bit pattern.
    pub accuracy: u32,
}

/// One known address: a position and three display-only text fields.
#[derive(Debug, PartialEq)]
pub struct Address {
    /// Latitude and longitude.
    pub location: Location,
    /// Prefecture name.
    pub prefecture: String,
    /// Municipality name.
    pub municipality: String,
    /// Town or block name.
    pub town: String,
}

impl Clone for Address {
    fn clone(&self) -> (r: Self)
        ensures
            r == *self,
    {
        Address {
            location: self.location,
            prefecture: self.prefecture.clone(),
            municipality: self.municipality.clone(),
            town: self.town.clone(),
        }
    }
}

/// The engine's two thresholds, in meters, as bit patterns.  Both must be
/// non-negative values, so that the unsigned order of the patterns agrees
/// with the numeric order.
#[derive(Debug, Clone, Copy)]
pub struct Config {
    /// An upper clamp on a query's claimed accuracy.
    pub max_accuracy: u32,
    /// The exclusive upper bound for a candidate's distance.
    pub max_distance: u32,
}

/// Whether the address at index `i` survives the distance filter: its
/// distance key is strictly below the bound.  A not-a-number distance has a
/// key above every finite key and so never qualifies.
pub open spec fn qualifies(keys: Seq<u32>, max: u32, i: int) -> bool {
    0 <= i < keys.len() && keys[i] < max
}

/// Whether index `i` wins the query: it qualifies, and no qualifying index
/// has a smaller key, ties going to the smaller insertion index.
pub open spec fn is_winner(keys: Seq<u32>, max: u32, i: int) -> bool {
    &&& qualifies(keys, max, i)
    &&& forall|j: int|
        qualifies(keys, max, j) ==> keys[i] < keys[j] || (keys[i] == keys[j] && i <= j)
}

/// What `reverse` returns for a dataset `addrs`, per-address distance keys
/// `keys` and a bound `max`: a match exactly when some address qualifies, and
/// then a copy of the address at the winning index.
pub open spec fn reverse_post(
    addrs: Seq<Address>,
    keys: Seq<u32>,
    max: u32,
    r: Option<Address>,
) -> bool {
    &&& (r is Some <==> exists|i: int| qualifies(keys, max, i))
    &&& match r {
        Some(a) => exists|i: int| is_winner(keys, max, i) && a == addrs[i],
        None => true,
    }
}

/// Whether a key is the bit pattern of a not-a-number value: all eight
/// exponent bits set and a mantissa that is not zero.
pub open spec fn is_nan_key(k: u32) -> bool {
    k & 0x7f80_0000 == 0x7f80_0000 && k & 0x007f_ffff != 0
}

/// A not-a-number distance always fails the filter: every not-a-number
/// pattern compares above any bound that is the pattern of a non-negative
/// value other than not-a-number itself (such a bound is at most the
/// infinity pattern).
pub proof fn lemma_nan_never_qualifies(keys: Seq<u32>, max: u32, i: int)
    requires
        max <= 0x7f80_0000,
        0 <= i < keys.len(),
        is_nan_key(keys[i]),
    ensures
        !qualifies(keys, max, i),
{
    let k = keys[i];
    assert(k > 0x7f80_0000) by (bit_vector)
        requires
            k & 0x7f80_0000 == 0x7f80_0000 && k & 0x007f_ffff != 0,
    ;
}

/// A not-a-number distance can never win the reduction, even without the
/// filter step: winning requires qualifying.
pub proof fn lemma_nan_never_wins(keys: Seq<u32>, max: u32, i: int)
    requires
        max <= 0x7f80_0000,
        0 <= i < keys.len(),
        is_nan_key(keys[i]),
    ensures
        !is_winner(keys, max, i),
{
    lemma_nan_never_qualifies(keys, max, i);
}

/// At most one index wins a query: of two minimal keys the smaller index is
/// picked, so the winner is a function of the keys and the bound.
pub proof fn lemma_winner_unique(keys: Seq<u32>, max: u32, i: int, j: int)
    requires
        is_winner(keys, max, i),
        is_winner(keys, max, j),
    ensures
        i == j,
{
    assert(qualifies(keys, max, i));
    assert(qualifies(keys, max, j));
}

/// Repeated `reverse` calls with identical query input against an unmodified
/// dataset return identical results: the contract of `reverse` admits exactly
/// one outcome for given addresses, distance keys and bound.
pub proof fn lemma_reverse_idempotent(
    addrs: Seq<Address>,
    keys: Seq<u32>,
    max: u32,
    r1: Option<Address>,
    r2: Option<Address>,
)
    requires
        reverse_post(addrs, keys, max, r1),
        reverse_post(addrs, keys, max, r2),
    ensures
        r1 == r2,
{
    match (r1, r2) {
        (Some(a1), Some(a2)) => {
            let i1 = choose|i: int| is_winner(keys, max, i) && a1 == addrs[i];
            let i2 = choose|i: int| is_winner(keys, max, i) && a2 == addrs[i];
            lemma_winner_unique(keys, max, i1, i2);
        },
        _ => {},
    }
}

/// Lexicographic order on (distance key, insertion index) pairs.
pub open spec fn pair_le(a: (u32, usize), b: (u32, usize)) -> bool {
    a.0 < b.0 || (a.0 == b.0 && a.1 <= b.1)
}

/// Relies on rayon's `ParallelIterator::min`, a parallel reduction with
/// `Ord::min`: it returns `None` exactly on empty input and otherwise an
/// element of the input that is no greater than any other element, under the
/// lexicographic order that std documents for tuples.
#[verifier::external_body]
fn par_min_pair(pairs: &Vec<(u32, usize)>) -> (r: Option<(u32, usize)>)
    ensures
        r is Some <==> pairs@.len() > 0,
        r matches Some(p) ==> pairs@.contains(p) && forall|j: int|
            0 <= j < pairs@.len() ==> pair_le(p, #[trigger] pairs@[j]),
{
    pairs.par_iter().min().copied()
}

/// The dataset and the engine over it: a configuration fixed at construction
/// and an append-only sequence of addresses.
#[derive(Debug)]
pub struct ReverseGeocoder {
    config: Config,
    addresses: Vec<Address>,
}

impl ReverseGeocoder {
    /// Both thresholds are patterns of non-negative values other than
    /// not-a-number (at most the infinity pattern): a caller contract,
    /// demanded at construction and kept by every operation, since the
    /// configuration is fixed for the engine's life.
    pub open spec fn wf(&self) -> bool {
        self.max_accuracy() <= 0x7f80_0000 && self.max_distance() <= 0x7f80_0000
    }

    /// The stored addresses, in insertion order.
    pub closed spec fn addrs(&self) -> Seq<Address> {
        self.addresses@
    }

    /// The exclusive distance bound, as a bit pattern.
    pub closed spec fn max_distance(&self) -> u32 {
        self.config.max_distance
    }

    /// The accuracy clamp, as a bit pattern.
    pub closed spec fn max_accuracy(&self) -> u32 {
        self.config.max_accuracy
    }

    pub fn new(config: Config) -> (r: ReverseGeocoder)
        requires
            config.max_accuracy <= 0x7f80_0000,
            config.max_distance <= 0x7f80_0000,
        ensures
            r.wf(),
            r.addrs().len() == 0,
            r.max_distance() == config.max_distance,
            r.max_accuracy() == config.max_accuracy,
    {
        ReverseGeocoder { config, addresses: Vec::new() }
    }

    /// Appends one fully-formed address; nothing is ever removed or
    /// reordered.
    pub fn add(&mut self, address: Address)
        ensures
            final(self).addrs() == old(self).addrs().push(address),
            final(self).max_distance() == old(self).max_distance(),
            final(self).max_accuracy() == old(self).max_accuracy(),
            final(self).wf() == old(self).wf(),
    {
        self.addresses.push(address);
    }

    /// The stored addresses, for computing per-address distances.
    pub fn addresses(&self) -> (r: &Vec<Address>)
        ensures
            r@ == self.addrs(),
    {
        &self.addresses
    }

    /// The query's declared accuracy, clamped to the configured maximum.  The
    /// engine computes it as part of every query; in this version it does not
    /// narrow the distance filter and is reserved for accuracy-aware ranking.
    pub fn clamped_accuracy(&self, location: &UserLocation) -> (r: u32)
        ensures
            r == if location.accuracy < self.max_accuracy() {
                location.accuracy
            } else {
                self.max_accuracy()
            },
    {
        if location.accuracy < self.config.max_accuracy {
            location.accuracy
        } else {
            self.config.max_accuracy
        }
    }

    /// Finds the stored address closest to the query.  `distance_keys` holds,
    /// for each stored address in order, the bit pattern of its distance in
    /// meters from the query point.  An address qualifies when its key is
    /// strictly below the configured bound — a not-a-number distance never
    /// qualifies — and among the qualifying addresses the one with the
    /// smallest key wins, ties going to the earliest inserted.  Returns
    /// `None` when nothing qualifies.
    pub fn reverse(&self, location: &UserLocation, distance_keys: &Vec<u32>) -> (r: Option<
        Address,
    >)
        requires
            distance_keys@.len() == self.addrs().len(),
        ensures
            reverse_post(self.addrs(), distance_keys@, self.max_distance(), r),
            self.addrs().len() == 0 ==> r is None,
            self.wf() ==> forall|i: int|
                0 <= i < distance_keys@.len() && is_nan_key(#[trigger] distance_keys@[i])
                    ==> !qualifies(distance_keys@, self.max_distance(), i),
    {
        proof {
            if self.wf() {
                assert forall|i: int|
                    0 <= i < distance_keys@.len() && is_nan_key(
                        #[trigger] distance_keys@[i],
                    ) implies !qualifies(distance_keys@, self.max_distance(), i) by {
                    lemma_nan_never_qualifies(distance_keys@, self.max_distance(), i);
                }
            }
        }
        // Computed as part of every query but, in this version, deliberately
        // not used to narrow the filter: reserved for accuracy-aware ranking.
        let _accuracy = self.clamped_accuracy(location);
        let max = self.config.max_distance;
        let n = distance_keys.len();
        let mut pairs: Vec<(u32, usize)> = Vec::new();
        let mut i: usize = 0;
        while i < n
            invariant
                n == distance_keys@.len(),
                i <= n,
                forall|t: int|
                    0 <= t < pairs@.len() ==> {
                        let p = #[trigger] pairs@[t];
                        &&& p.1 < i
                        &&& p.0 == distance_keys@[p.1 as int]
                        &&& p.0 < max
                    },
                forall|j: int|
                    0 <= j < i && distance_keys@[j] < max ==> exists|t: int|
                        0 <= t < pairs@.len() && #[trigger] pairs@[t] == (
                        distance_keys@[j],
                        j as usize,
                        ),
            decreases n - i,
        {
            let ghost before = pairs@;
            if distance_keys[i] < max {
                pairs.push((distance_keys[i], i));
            }
            proof {
                assert forall|j: int|
                    0 <= j < i + 1 && distance_keys@[j] < max implies exists|t: int|
                    0 <= t < pairs@.len() && #[trigger] pairs@[t] == (
                    distance_keys@[j],
                    j as usize,
                    ) by {
                    if j == i {
                        assert(pairs@[before.len() as int] == (distance_keys@[j], j as usize));
                    } else {
                        let t = choose|t: int|
                            0 <= t < before.len() && #[trigger] before[t] == (
                            distance_keys@[j],
                            j as usize,
                            );
                        assert(pairs@[t] == (distance_keys@[j], j as usize));
                    }
                }
            }
            i += 1;
        }
        match par_min_pair(&pairs) {
            None => {
                proof {
                    assert forall|k: int| !qualifies(distance_keys@, max, k) by {
                        if 0 <= k < distance_keys@.len() && distance_keys@[k] < max {
                            assert(exists|t: int|
                                0 <= t < pairs@.len() && #[trigger] pairs@[t] == (
                                distance_keys@[k],
                                k as usize,
                                ));
                        }
                    }
                }
                None
            },
            Some(p) => {
                proof {
                    let t = choose|t: int| 0 <= t < pairs@.len() && pairs@[t] == p;
                    assert(qualifies(distance_keys@, max, p.1 as int));
                    assert forall|j: int|
                        qualifies(distance_keys@, max, j) implies distance_keys@[p.1 as int]
                        < distance_keys@[j] || (distance_keys@[p.1 as int] == distance_keys@[j]
                        && p.1 <= j) by {
                        let q = (distance_keys@[j], j as usize);
                        let u = choose|u: int| 0 <= u < pairs@.len() && #[trigger] pairs@[u] == q;
                        assert(pair_le(p, pairs@[u]));
                    }
                    assert(is_winner(distance_keys@, max, p.1 as int));
                }
                let idx = p.1;
                Some(self.addresses[idx].clone())
            },
        }
    }
}

} // verus!
