//! The identity registry: a normalized device address mapped to the
//! operator-configured sensor identity.
//!
//! Addresses are normalized to uppercase on load and on lookup, so a device
//! that reports its address in another letter case still resolves. Duplicate
//! configured addresses are kept — the last entry wins on lookup, matching
//! construction of a keyed mapping — but they can be surfaced for a
//! configuration warning through `duplicate_addresses`.

use crate::config::Sensor;
use vstd::prelude::*;

verus! {

/// A character mapped to its uppercase form; only ASCII letters change.
pub open spec fn spec_upper_char(c: char) -> char {
    if 'a' <= c && c <= 'z' {
        ((c as u32) - 32) as char
    } else {
        c
    }
}

/// The canonical form of a device address: every character uppercased.
pub open spec fn spec_normalize(s: Seq<char>) -> Seq<char> {
    s.map_values(|c: char| spec_upper_char(c))
}

/// The identity a key resolves to: the last configured sensor whose
/// (normalized) address equals the key, if any.
pub open spec fn spec_lookup(sensors: Seq<Sensor>, key: Seq<char>) -> Option<Sensor>
    decreases sensors.len(),
{
    if sensors.len() == 0 {
        None
    } else if sensors.last().mac@ == key {
        Some(sensors.last())
    } else {
        spec_lookup(sensors.drop_last(), key)
    }
}

/// Maps one character to its uppercase form.
fn upper_char(c: char) -> (r: char)
    ensures
        r == spec_upper_char(c),
{
    let u: u32 = c as u32;
    if 97 <= u && u <= 122 {
        ((u - 32) as u8) as char
    } else {
        c
    }
}

/// Normalizes a raw device address to the registry's canonical uppercase
/// form.
pub fn normalize_address(s: &str) -> (r: String)
    ensures
        r@ == spec_normalize(s@),
{
    let n = s.unicode_len();
    let mut out = String::new();
    let mut i: usize = 0;
    while i < n
        invariant
            n == s@.len(),
            i <= n,
            out@ == spec_normalize(s@).take(i as int),
        decreases n - i,
    {
        let c = s.get_char(i);
        out.push(upper_char(c));
        assert(out@ =~= spec_normalize(s@).take(i as int + 1));
        i += 1;
    }
    assert(out@ =~= spec_normalize(s@));
    out
}

/// Uppercasing is idempotent: normalizing an already-normalized address
/// changes nothing.
pub proof fn lemma_normalize_idempotent(s: Seq<char>)
    ensures
        spec_normalize(spec_normalize(s)) == spec_normalize(s),
{
    assert forall|c: char| #[trigger] spec_upper_char(spec_upper_char(c)) == spec_upper_char(
        c,
    ) by {
        if 'a' <= c && c <= 'z' {
            assert(!('a' <= spec_upper_char(c) && spec_upper_char(c) <= 'z'));
        }
    }
    assert(spec_normalize(spec_normalize(s)) =~= spec_normalize(s));
}

/// Whether some entry before position `j` carries the same address as the
/// entry at `j`.
pub open spec fn spec_has_earlier_match(sensors: Seq<Sensor>, j: int) -> bool {
    exists|i: int| 0 <= i < j && sensors[i].mac@ == sensors[j].mac@
}

/// The addresses of the entries in the first `n` positions that repeat an
/// earlier entry's address, in configuration order.
pub open spec fn spec_duplicates(sensors: Seq<Sensor>, n: int) -> Seq<Seq<char>>
    decreases n,
{
    if n <= 0 {
        Seq::empty()
    } else if spec_has_earlier_match(sensors, n - 1) {
        spec_duplicates(sensors, n - 1).push(sensors[n - 1].mac@)
    } else {
        spec_duplicates(sensors, n - 1)
    }
}

/// The registry of configured sensor identities, addresses normalized.
pub struct IdentityRegistry {
    sensors: Vec<Sensor>,
}

impl View for IdentityRegistry {
    type V = Seq<Sensor>;

    closed spec fn view(&self) -> Seq<Sensor> {
        self.sensors@
    }
}

impl IdentityRegistry {
    /// Every stored address is in canonical form, so lookups by a normalized
    /// key can only miss when no configured sensor carries that address.
    pub open spec fn wf(&self) -> bool {
        forall|i: int|
            0 <= i < self@.len() ==> spec_normalize(#[trigger] self@[i].mac@) == self@[i].mac@
    }

    /// Builds the registry from the configured sensor sequence, normalizing
    /// every address and keeping the configured order (and any duplicates).
    pub fn load(sensors: &Vec<Sensor>) -> (r: IdentityRegistry)
        ensures
            r@.len() == sensors@.len(),
            forall|i: int|
                0 <= i < sensors@.len() ==> {
                    &&& (#[trigger] r@[i]).name@ == sensors@[i].name@
                    &&& r@[i].mac@ == spec_normalize(sensors@[i].mac@)
                    &&& r@[i].mqtt_publish@ == sensors@[i].mqtt_publish@
                },
            r.wf(),
    {
        let mut v: Vec<Sensor> = Vec::new();
        let mut i: usize = 0;
        while i < sensors.len()
            invariant
                i <= sensors@.len(),
                v@.len() == i,
                forall|j: int|
                    0 <= j < i ==> {
                        &&& (#[trigger] v@[j]).name@ == sensors@[j].name@
                        &&& v@[j].mac@ == spec_normalize(sensors@[j].mac@)
                        &&& v@[j].mqtt_publish@ == sensors@[j].mqtt_publish@
                    },
            decreases sensors@.len() - i,
        {
            let s = &sensors[i];
            let entry = Sensor {
                name: s.name.clone(),
                mac: normalize_address(s.mac.as_str()),
                mqtt_publish: s.mqtt_publish.clone(),
            };
            v.push(entry);
            i += 1;
        }
        let r = IdentityRegistry { sensors: v };
        proof {
            assert forall|i: int| 0 <= i < r@.len() implies spec_normalize(
                #[trigger] r@[i].mac@,
            ) == r@[i].mac@ by {
                lemma_normalize_idempotent(sensors@[i].mac@);
            }
        }
        r
    }

    /// The number of configured entries.
    pub fn len(&self) -> (n: usize)
        ensures
            n == self@.len(),
    {
        self.sensors.len()
    }

    /// Looks an already-normalized address up; on duplicate configured
    /// addresses the last configured entry wins.
    pub fn lookup<'a>(&'a self, address: &str) -> (r: Option<&'a Sensor>)
        ensures
            (r is Some) == (spec_lookup(self@, address@) is Some),
            r is Some ==> *r.unwrap() == spec_lookup(self@, address@).unwrap(),
    {
        let key: String = address.to_owned();
        let mut i: usize = self.sensors.len();
        proof {
            assert(self@.take(i as int) =~= self@);
        }
        while i > 0
            invariant
                i <= self@.len(),
                key@ == address@,
                spec_lookup(self@, address@) == spec_lookup(self@.take(i as int), address@),
            decreases i,
        {
            i = i - 1;
            let s = &self.sensors[i];
            if s.mac == key {
                proof {
                    assert(self@.take(i as int + 1).last() == self@[i as int]);
                }
                return Some(s);
            }
            proof {
                assert(self@.take(i as int + 1).drop_last() =~= self@.take(i as int));
            }
        }
        proof {
            assert(self@.take(0).len() == 0);
        }
        None
    }

    /// The addresses that occur more than once in the configuration, one
    /// entry for each repetition, for a configuration-validation warning.
    pub fn duplicate_addresses(&self) -> (dups: Vec<String>)
        ensures
            dups@.map_values(|x: String| x@) == spec_duplicates(self@, self@.len() as int),
    {
        let mut dups: Vec<String> = Vec::new();
        let n = self.sensors.len();
        let mut j: usize = 0;
        while j < n
            invariant
                j <= n,
                n == self@.len(),
                dups@.map_values(|x: String| x@) == spec_duplicates(self@, j as int),
            decreases n - j,
        {
            let mut found = false;
            let mut i: usize = 0;
            while i < j
                invariant
                    i <= j,
                    j < n == self@.len(),
                    found == (exists|k: int| 0 <= k < i && self@[k].mac@ == self@[j as int].mac@),
                decreases j - i,
            {
                if self.sensors[i].mac == self.sensors[j].mac {
                    found = true;
                }
                i += 1;
            }
            if found {
                dups.push(self.sensors[j].mac.clone());
                assert(dups@.map_values(|x: String| x@) =~= spec_duplicates(
                    self@,
                    j as int + 1,
                ));
            }
            j += 1;
        }
        dups
    }
}

/// A lookup succeeds exactly when some configured entry carries the key as
/// its address.
pub proof fn lemma_lookup_hit_iff(sensors: Seq<Sensor>, key: Seq<char>)
    ensures
        (spec_lookup(sensors, key) is Some) <==> (exists|i: int|
            0 <= i < sensors.len() && (#[trigger] sensors[i].mac@) == key),
    decreases sensors.len(),
{
    if sensors.len() > 0 {
        if sensors.last().mac@ == key {
            assert(sensors[sensors.len() - 1].mac@ == key);
        } else {
            lemma_lookup_hit_iff(sensors.drop_last(), key);
            if exists|i: int| 0 <= i < sensors.len() && (#[trigger] sensors[i].mac@) == key {
                let i = choose|i: int|
                    0 <= i < sensors.len() && (#[trigger] sensors[i].mac@) == key;
                assert(sensors.drop_last()[i].mac@ == key);
            }
        }
    }
}

} // verus!
