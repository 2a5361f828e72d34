//! Per-domain runtime policy, guarded operations, and the audit trail
//! of denials, together with the AR virtual-object envelope.
//!
//! The introspection seal binds one resolved policy and keeps the audit
//! trail itself: every denial appends an event, so no refusal is
//! silent.

use vstd::prelude::*;

use crate::trusted::now_millis;

verus! {

/// High-level safety modes for an augmented citizen.
#[derive(Clone, Copy, PartialEq, Eq, Structural, Debug)]
pub enum CitizenSafetyMode {
    Public,
    Private,
    Research,
}

/// Analytics and performance hooks active in a surface.
#[derive(Clone, Copy, PartialEq, Eq, Structural, Debug)]
pub struct TelemetryHookSet {
    pub hook_document: bool,
    pub hook_xhr: bool,
    pub hook_fetch: bool,
    pub hook_beacon: bool,
    pub hook_css: bool,
    pub hook_js: bool,
    pub hook_image: bool,
    pub hook_font: bool,
    pub hook_media: bool,
    /// Sample interval in milliseconds.
    pub sample_interval_ms: u64,
    /// Collection interval in milliseconds.
    pub collect_interval_ms: u64,
    /// Minimum profile duration in milliseconds.
    pub min_profile_duration_ms: u64,
    /// Minimum number of samples per profile.
    pub min_samples: u32,
}

impl TelemetryHookSet {
    /// Dense sampling: a 10 ms-or-faster interval with at least 50
    /// samples per profile.
    pub fn is_dense(&self) -> (r: bool)
        ensures
            r == (self.sample_interval_ms <= 10 && self.min_samples >= 50),
    {
        self.sample_interval_ms <= 10 && self.min_samples >= 50
    }
}

/// Coarse view of the sensory and event surfaces of the host.
pub struct GlobalStateManifold {
    pub has_xr: bool,
    pub has_pointer_events: bool,
    pub has_device_orientation: bool,
    pub has_scroll_events: bool,
    pub has_gamepad: bool,
    pub has_gpu: bool,
    pub user_agent: String,
    pub platform: String,
    pub vendor: String,
    pub max_touch_points: u8,
}

/// Local identity tokens, to be anchored externally.
pub struct IdentityShard {
    pub browser_local_id: Option<String>,
    pub browser_global_id: Option<String>,
    pub cookie_summary: Vec<String>,
    pub bostrom_address: Option<String>,
    pub evm_address: Option<String>,
}

/// Blocked cross-origin attempts observed in the surface.
pub struct CrossOriginAnomaly {
    pub source_origin: String,
    pub target_origin: String,
    pub operation: String,
    pub count_blocked: u32,
}

/// The label shown for each citizen safety mode.
pub open spec fn citizen_mode_label(m: CitizenSafetyMode) -> Seq<char> {
    match m {
        CitizenSafetyMode::Public => "CITIZEN_MODE_PUBLIC"@,
        CitizenSafetyMode::Private => "CITIZEN_MODE_PRIVATE"@,
        CitizenSafetyMode::Research => "CITIZEN_MODE_RESEARCH"@,
    }
}

/// Augmented-citizen profile with safety preferences.
pub struct CitizenXRProfile {
    pub did: String,
    pub safety_mode: CitizenSafetyMode,
    pub allow_high_frequency_sensors: bool,
    pub allow_cross_device_correlation: bool,
    pub allow_ar_ads: bool,
    pub governance_keys: Vec<String>,
    pub audit_trail_refs: Vec<String>,
}

impl CitizenXRProfile {
    pub fn can_use_high_freq(&self) -> (r: bool)
        ensures
            r == self.allow_high_frequency_sensors,
    {
        self.allow_high_frequency_sensors
    }

    pub fn mode_label(&self) -> (r: &'static str)
        ensures
            r@ == citizen_mode_label(self.safety_mode),
    {
        match self.safety_mode {
            CitizenSafetyMode::Public => "CITIZEN_MODE_PUBLIC",
            CitizenSafetyMode::Private => "CITIZEN_MODE_PRIVATE",
            CitizenSafetyMode::Research => "CITIZEN_MODE_RESEARCH",
        }
    }
}

/// Per-domain runtime policy.
#[derive(Debug)]
pub struct RuntimePolicy {
    pub domain: String,
    pub allow_telemetry: bool,
    pub allow_cross_origin_introspection: bool,
    pub allowed_sdks: Vec<String>,
    pub citizen_mode: CitizenSafetyMode,
}

/// Two policies agree on everything observable: same domain text, same
/// switches, same allow-list contents, same citizen mode.
pub open spec fn policy_matches(a: RuntimePolicy, b: RuntimePolicy) -> bool {
    &&& a.domain@ == b.domain@
    &&& a.allow_telemetry == b.allow_telemetry
    &&& a.allow_cross_origin_introspection == b.allow_cross_origin_introspection
    &&& a.allowed_sdks@ == b.allowed_sdks@
    &&& a.citizen_mode == b.citizen_mode
}

/// The deny-by-default policy shape, scoped to `domain`: telemetry and
/// cross-origin introspection disallowed, empty allow-list, private
/// citizen mode.
pub open spec fn deny_by_default(p: RuntimePolicy, domain: Seq<char>) -> bool {
    &&& p.domain@ == domain
    &&& !p.allow_telemetry
    &&& !p.allow_cross_origin_introspection
    &&& p.allowed_sdks@.len() == 0
    &&& p.citizen_mode == CitizenSafetyMode::Private
}

/// Element-wise copy of a string list; string clones are equal to their
/// originals, so the copy carries the very same sequence.
fn clone_string_vec(v: &Vec<String>) -> (r: Vec<String>)
    ensures
        r@ == v@,
{
    let mut r: Vec<String> = Vec::new();
    let n = v.len();
    let mut i: usize = 0;
    while i < n
        invariant
            i <= n,
            n == v@.len(),
            r@ =~= v@.subrange(0, i as int),
        decreases n - i,
    {
        r.push(v[i].clone());
        proof {
            assert(r@ =~= v@.subrange(0, i + 1));
        }
        i += 1;
    }
    proof {
        assert(r@ =~= v@);
    }
    r
}

impl Clone for RuntimePolicy {
    fn clone(&self) -> (r: Self)
        ensures
            policy_matches(r, *self),
    {
        RuntimePolicy {
            domain: self.domain.clone(),
            allow_telemetry: self.allow_telemetry,
            allow_cross_origin_introspection: self.allow_cross_origin_introspection,
            allowed_sdks: clone_string_vec(&self.allowed_sdks),
            citizen_mode: self.citizen_mode,
        }
    }
}

impl std::default::Default for RuntimePolicy {
    /// The deny-by-default policy for the placeholder domain "unknown".
    fn default() -> (r: Self)
        ensures
            deny_by_default(r, "unknown"@),
    {
        RuntimePolicy {
            domain: "unknown".to_owned(),
            allow_telemetry: false,
            allow_cross_origin_introspection: false,
            allowed_sdks: Vec::new(),
            citizen_mode: CitizenSafetyMode::Private,
        }
    }
}

/// First policy registered under `dom`, if any.
spec fn pair_lookup(s: Seq<(String, RuntimePolicy)>, dom: Seq<char>) -> Option<RuntimePolicy>
    decreases s.len(),
{
    if s.len() == 0 {
        None
    } else if s[0].0@ == dom {
        Some(s[0].1)
    } else {
        pair_lookup(s.drop_first(), dom)
    }
}

proof fn lemma_pair_lookup_first(s: Seq<(String, RuntimePolicy)>, i: int)
    requires
        0 <= i < s.len(),
        forall|k: int| 0 <= k < i ==> (#[trigger] s[k]).0@ != s[i].0@,
    ensures
        pair_lookup(s, s[i].0@) == Some(s[i].1),
    decreases s.len(),
{
    if i > 0 {
        assert(s.drop_first()[i - 1] == s[i]);
        lemma_pair_lookup_first(s.drop_first(), i - 1);
    }
}

proof fn lemma_pair_lookup_missing(s: Seq<(String, RuntimePolicy)>, dom: Seq<char>)
    requires
        forall|k: int| 0 <= k < s.len() ==> (#[trigger] s[k]).0@ != dom,
    ensures
        pair_lookup(s, dom) is None,
    decreases s.len(),
{
    if s.len() > 0 {
        lemma_pair_lookup_missing(s.drop_first(), dom);
    }
}

proof fn lemma_pair_lookup_update(s: Seq<(String, RuntimePolicy)>, i: int, p: (String, RuntimePolicy))
    requires
        0 <= i < s.len(),
        p.0@ == s[i].0@,
        forall|k: int| 0 <= k < i ==> (#[trigger] s[k]).0@ != s[i].0@,
    ensures
        pair_lookup(s.update(i, p), s[i].0@) == Some(p.1),
        forall|d: Seq<char>|
            d != s[i].0@ ==> pair_lookup(s.update(i, p), d) == pair_lookup(s, d),
    decreases s.len(),
{
    let t = s.update(i, p);
    assert forall|d: Seq<char>|
        #![trigger pair_lookup(t, d)]
        (d == s[i].0@ ==> pair_lookup(t, d) == Some(p.1)) && (d != s[i].0@ ==> pair_lookup(t, d)
            == pair_lookup(s, d)) by {
        if i == 0 {
            assert(t[0] == p);
            assert(t.drop_first() =~= s.drop_first());
            assert(pair_lookup(t.drop_first(), d) == pair_lookup(s.drop_first(), d));
        } else {
            assert(s.drop_first()[i - 1] == s[i]);
            lemma_pair_lookup_update(s.drop_first(), i - 1, p);
            assert(t[0] == s[0]);
            assert(t.drop_first() =~= s.drop_first().update(i - 1, p));
            assert(pair_lookup(t.drop_first(), d) == pair_lookup(
                s.drop_first().update(i - 1, p),
                d,
            ));
        }
    }
}

proof fn lemma_pair_lookup_push(s: Seq<(String, RuntimePolicy)>, p: (String, RuntimePolicy))
    requires
        pair_lookup(s, p.0@) is None,
    ensures
        pair_lookup(s.push(p), p.0@) == Some(p.1),
        forall|d: Seq<char>| d != p.0@ ==> pair_lookup(s.push(p), d) == pair_lookup(s, d),
    decreases s.len(),
{
    let t = s.push(p);
    assert forall|d: Seq<char>|
        #![trigger pair_lookup(t, d)]
        (d == p.0@ ==> pair_lookup(t, d) == Some(p.1)) && (d != p.0@ ==> pair_lookup(t, d)
            == pair_lookup(s, d)) by {
        if s.len() == 0 {
            assert(t[0] == p);
            assert(t.drop_first() =~= Seq::<(String, RuntimePolicy)>::empty());
            assert(pair_lookup(t.drop_first(), d) is None);
        } else {
            lemma_pair_lookup_push(s.drop_first(), p);
            assert(t[0] == s[0]);
            assert(t.drop_first() =~= s.drop_first().push(p));
            assert(pair_lookup(t.drop_first(), d) == pair_lookup(s.drop_first().push(p), d));
            assert(d != p.0@ ==> pair_lookup(s.drop_first().push(p), d) == pair_lookup(
                s.drop_first(),
                d,
            ));
        }
    }
}

/// Registry of per-domain policies, deny-by-default for domains that
/// were never registered.
#[derive(Debug)]
pub struct RuntimePolicyRegistry {
    policies: Vec<(String, RuntimePolicy)>,
}

impl RuntimePolicyRegistry {
    /// The policy registered for `dom`, if any.
    pub closed spec fn registered(&self, dom: Seq<char>) -> Option<RuntimePolicy> {
        pair_lookup(self.policies@, dom)
    }

    fn find_policy(&self, domain: &str) -> (r: Option<usize>)
        ensures
            match r {
                Some(i) => i < self.policies@.len() && self.policies@[i as int].0@ == domain@
                    && self.registered(domain@) == Some(self.policies@[i as int].1) && forall|
                    k: int,
                |
                    0 <= k < i ==> (#[trigger] self.policies@[k]).0@ != domain@,
                None => self.registered(domain@) is None,
            },
    {
        let key: String = domain.to_owned();
        let n = self.policies.len();
        let mut i: usize = 0;
        while i < n
            invariant
                i <= n,
                n == self.policies@.len(),
                key@ == domain@,
                forall|k: int| 0 <= k < i ==> (#[trigger] self.policies@[k]).0@ != domain@,
            decreases n - i,
        {
            if self.policies[i].0 == key {
                proof {
                    lemma_pair_lookup_first(self.policies@, i as int);
                }
                return Some(i);
            }
            i += 1;
        }
        proof {
            lemma_pair_lookup_missing(self.policies@, domain@);
        }
        None
    }

    /// Register (or replace) the policy for a domain.
    pub fn set_policy(&mut self, domain: &str, policy: RuntimePolicy)
        ensures
            final(self).registered(domain@) == Some(policy),
            forall|d: Seq<char>|
                d != domain@ ==> final(self).registered(d) == old(self).registered(d),
    {
        match self.find_policy(domain) {
            Some(i) => {
                self.policies[i] = (domain.to_owned(), policy);
                proof {
                    lemma_pair_lookup_update(
                        old(self).policies@,
                        i as int,
                        self.policies@[i as int],
                    );
                }
            },
            None => {
                let p = (domain.to_owned(), policy);
                proof {
                    lemma_pair_lookup_push(self.policies@, p);
                }
                self.policies.push(p);
            },
        }
    }

    /// The registered policy for `domain`, or a deny-by-default policy
    /// scoped to the requested domain name.
    pub fn policy_for(&self, domain: &str) -> (r: RuntimePolicy)
        ensures
            match self.registered(domain@) {
                Some(p) => policy_matches(r, p),
                None => deny_by_default(r, domain@),
            },
    {
        match self.find_policy(domain) {
            Some(i) => self.policies[i].1.clone(),
            None => RuntimePolicy {
                domain: domain.to_owned(),
                allow_telemetry: false,
                allow_cross_origin_introspection: false,
                allowed_sdks: Vec::new(),
                citizen_mode: CitizenSafetyMode::Private,
            },
        }
    }
}

impl std::default::Default for RuntimePolicyRegistry {
    /// A registry with nothing registered.
    fn default() -> (r: Self)
        ensures
            forall|d: Seq<char>| #[trigger] r.registered(d) is None,
    {
        let r = RuntimePolicyRegistry { policies: Vec::new() };
        proof {
            assert forall|d: Seq<char>| #[trigger] r.registered(d) is None by {
                lemma_pair_lookup_missing(r.policies@, d);
            }
        }
        r
    }
}

/// One audit event: a kind tag, a capture time, and string key/value
/// details. Events are appended by guard operations and never mutated.
#[derive(Debug)]
pub struct AuditEvent {
    pub kind: String,
    pub timestamp: u64,
    pub details: Vec<(String, String)>,
}

/// The text content of an event's details, key/value pair by pair.
pub open spec fn details_view(d: Seq<(String, String)>) -> Seq<(Seq<char>, Seq<char>)> {
    d.map_values(|p: (String, String)| (p.0@, p.1@))
}

/// An event carries the given kind tag and exactly the given details.
pub open spec fn event_matches(
    e: AuditEvent,
    kind: Seq<char>,
    details: Seq<(Seq<char>, Seq<char>)>,
) -> bool {
    e.kind@ == kind && details_view(e.details@) == details
}

/// Blocks or audits risky operations under one resolved policy. The
/// trail records every denial, in order.
#[derive(Debug)]
pub struct RuntimeIntrospectionSeal {
    pub policy: RuntimePolicy,
    pub trail: Vec<AuditEvent>,
}

impl RuntimeIntrospectionSeal {
    pub fn new(policy: RuntimePolicy) -> (r: Self)
        ensures
            r.policy == policy,
            r.trail@.len() == 0,
    {
        RuntimeIntrospectionSeal { policy, trail: Vec::new() }
    }

    /// Denies cross-origin introspection unless the policy allows it;
    /// every denial appends a `cross-origin-block` event carrying the
    /// operation and both origins.
    pub fn guard_cross_origin(&mut self, operation: &str, source: &str, target: &str) -> (r: Result<
        (),
        String,
    >)
        ensures
            old(self).policy.allow_cross_origin_introspection ==> r is Ok && *final(self) == *old(
                self,
            ),
            !old(self).policy.allow_cross_origin_introspection ==> {
                &&& r matches Err(m) && m@ == "Cross-origin introspection blocked by policy"@
                &&& final(self).policy == old(self).policy
                &&& final(self).trail@.drop_last() == old(self).trail@
                &&& final(self).trail@.len() == old(self).trail@.len() + 1
                &&& event_matches(
                    final(self).trail@.last(),
                    "cross-origin-block"@,
                    seq![
                        ("operation"@, operation@),
                        ("source_origin"@, source@),
                        ("target_origin"@, target@),
                    ],
                )
            },
    {
        if !self.policy.allow_cross_origin_introspection {
            let mut details: Vec<(String, String)> = Vec::new();
            details.push(("operation".to_owned(), operation.to_owned()));
            details.push(("source_origin".to_owned(), source.to_owned()));
            details.push(("target_origin".to_owned(), target.to_owned()));
            let event = AuditEvent {
                kind: "cross-origin-block".to_owned(),
                timestamp: now_millis(),
                details,
            };
            proof {
                assert(details_view(event.details@) =~= seq![
                    ("operation"@, operation@),
                    ("source_origin"@, source@),
                    ("target_origin"@, target@),
                ]);
            }
            self.trail.push(event);
            proof {
                assert(self.trail@.drop_last() =~= old(self).trail@);
            }
            return Err("Cross-origin introspection blocked by policy".to_owned());
        }
        Ok(())
    }

    /// Whether `sdk` is on the policy's allow-list.
    pub open spec fn sdk_allowed(policy: RuntimePolicy, sdk: Seq<char>) -> bool {
        exists|i: int| 0 <= i < policy.allowed_sdks@.len() && policy.allowed_sdks@[i]@ == sdk
    }

    /// Telemetry is granted only when the policy allows telemetry at
    /// all and the SDK is on the allow-list. Both denial paths append a
    /// `telemetry-block` event carrying the SDK and the action.
    pub fn guard_telemetry(&mut self, sdk_name: &str, action: &str) -> (r: bool)
        ensures
            r == (old(self).policy.allow_telemetry && Self::sdk_allowed(
                old(self).policy,
                sdk_name@,
            )),
            final(self).policy == old(self).policy,
            r ==> *final(self) == *old(self),
            !r ==> final(self).trail@.drop_last() == old(self).trail@ && final(self).trail@.len()
                == old(self).trail@.len() + 1 && event_matches(
                final(self).trail@.last(),
                "telemetry-block"@,
                seq![("sdk"@, sdk_name@), ("action"@, action@)],
            ),
    {
        let allowed = if !self.policy.allow_telemetry {
            false
        } else {
            let key: String = sdk_name.to_owned();
            let n = self.policy.allowed_sdks.len();
            let mut i: usize = 0;
            let mut found = false;
            while i < n
                invariant
                    i <= n,
                    n == self.policy.allowed_sdks@.len(),
                    key@ == sdk_name@,
                    found == exists|k: int|
                        0 <= k < i && (#[trigger] self.policy.allowed_sdks@[k])@ == sdk_name@,
                decreases n - i,
            {
                if self.policy.allowed_sdks[i] == key {
                    found = true;
                }
                i += 1;
            }
            found
        };
        if !allowed {
            let mut details: Vec<(String, String)> = Vec::new();
            details.push(("sdk".to_owned(), sdk_name.to_owned()));
            details.push(("action".to_owned(), action.to_owned()));
            let event = AuditEvent {
                kind: "telemetry-block".to_owned(),
                timestamp: now_millis(),
                details,
            };
            proof {
                assert(details_view(event.details@) =~= seq![
                    ("sdk"@, sdk_name@),
                    ("action"@, action@),
                ]);
            }
            self.trail.push(event);
            proof {
                assert(self.trail@.drop_last() =~= old(self).trail@);
            }
        }
        allowed
    }
}

/// Coarse AR object taxonomy.
#[derive(Clone, Copy, PartialEq, Eq, Structural, Debug)]
pub enum ARVirtualType {
    Portal,
    Marker,
    Overlay,
    GovernancePanel,
    SafetyBeacon,
}

/// Normalized spatial representation, in milli-units.
#[derive(Clone, Copy, PartialEq, Eq, Structural, Debug)]
pub struct Geometry {
    pub x: i32,
    pub y: i32,
    pub z: i32,
    pub yaw: i32,
    pub pitch: i32,
    pub roll: i32,
    pub scale: i32,
}

/// External ledger anchor for an object, with a locally computed
/// non-cryptographic checksum for sanity cross-checking.
#[derive(Debug)]
pub struct LedgerAnchor {
    pub chain_id: String,
    pub tx_id: String,
    pub local_proof_hex: String,
}

/// Seed of the checksum accumulator.
pub const CRC_SEED: u32 = 0xC0DE_B10D;

/// Odd multiplier mixed in after every item of the checksum input.
pub const CRC_MULT: u32 = 0x1F3D5B79;

/// One checksum round: rotate, fold the item in, multiply (mod 2^32).
pub open spec fn crc_step(acc: u32, item: u32) -> u32 {
    ((((((acc << 5u32) | (acc >> 27u32)) ^ item) as nat * CRC_MULT as nat) % 0x100000000) as u32)
}

/// Checksum of the first `k` items.
pub open spec fn crc_upto(items: Seq<u32>, k: int) -> u32
    decreases k,
{
    if k <= 0 {
        CRC_SEED
    } else {
        crc_step(crc_upto(items, k - 1), items[k - 1])
    }
}

/// Non-cryptographic checksum of an item sequence: a sanity check, not
/// a security primitive.
pub open spec fn crc_of(items: Seq<u32>) -> u32 {
    crc_upto(items, items.len() as int)
}

/// The numeric value of each character.
pub open spec fn char_codes(s: Seq<char>) -> Seq<u32> {
    s.map_values(|c: char| c as u32)
}

/// The character for one hex nibble.
pub open spec fn hex_digit(n: u32) -> char {
    if n == 0 {
        '0'
    } else if n == 1 {
        '1'
    } else if n == 2 {
        '2'
    } else if n == 3 {
        '3'
    } else if n == 4 {
        '4'
    } else if n == 5 {
        '5'
    } else if n == 6 {
        '6'
    } else if n == 7 {
        '7'
    } else if n == 8 {
        '8'
    } else if n == 9 {
        '9'
    } else if n == 10 {
        'a'
    } else if n == 11 {
        'b'
    } else if n == 12 {
        'c'
    } else if n == 13 {
        'd'
    } else if n == 14 {
        'e'
    } else {
        'f'
    }
}

/// Eight lowercase hex digits, most significant nibble first.
pub open spec fn hex32(v: u32) -> Seq<char> {
    Seq::new(8, |i: int| hex_digit((v >> (((7 - i) * 4) as u32)) & 0xF))
}

/// Checksum over an item list.
fn crc32ish(items: &Vec<u32>) -> (r: u32)
    ensures
        r == crc_of(items@),
{
    let mut acc: u32 = CRC_SEED;
    let n = items.len();
    let mut i: usize = 0;
    while i < n
        invariant
            i <= n,
            n == items@.len(),
            acc == crc_upto(items@, i as int),
        decreases n - i,
    {
        let mixed: u32 = ((acc << 5u32) | (acc >> 27u32)) ^ items[i];
        let wide: u64 = (mixed as u64) * (CRC_MULT as u64);
        let next: u32 = (wide % 0x100000000u64) as u32;
        proof {
            assert(next == crc_step(acc, items@[i as int]));
        }
        acc = next;
        i += 1;
    }
    acc
}

/// Hex encoding of a 32-bit value, eight digits.
fn to_hex32(v: u32) -> (r: String)
    ensures
        r@ == hex32(v),
{
    let mut out = String::new();
    let mut k: usize = 0;
    while k < 8
        invariant
            k <= 8,
            out@.len() == k,
            forall|j: int| 0 <= j < k ==> out@[j] == hex32(v)[j],
        decreases 8 - k,
    {
        let shift: u32 = 28 - 4 * (k as u32);
        let nib: u32 = (v >> shift) & 0xF;
        proof {
            assert((v >> shift) & 0xF <= 0xF) by (bit_vector);
            assert(shift == ((7 - k as int) * 4) as u32);
        }
        let digit: &'static str = if nib == 0 {
            "0"
        } else if nib == 1 {
            "1"
        } else if nib == 2 {
            "2"
        } else if nib == 3 {
            "3"
        } else if nib == 4 {
            "4"
        } else if nib == 5 {
            "5"
        } else if nib == 6 {
            "6"
        } else if nib == 7 {
            "7"
        } else if nib == 8 {
            "8"
        } else if nib == 9 {
            "9"
        } else if nib == 10 {
            "a"
        } else if nib == 11 {
            "b"
        } else if nib == 12 {
            "c"
        } else if nib == 13 {
            "d"
        } else if nib == 14 {
            "e"
        } else {
            "f"
        };
        proof {
            reveal_strlit("0");
            reveal_strlit("1");
            reveal_strlit("2");
            reveal_strlit("3");
            reveal_strlit("4");
            reveal_strlit("5");
            reveal_strlit("6");
            reveal_strlit("7");
            reveal_strlit("8");
            reveal_strlit("9");
            reveal_strlit("a");
            reveal_strlit("b");
            reveal_strlit("c");
            reveal_strlit("d");
            reveal_strlit("e");
            reveal_strlit("f");
            assert(digit@.len() == 1);
            assert(digit@[0] == hex_digit(nib));
            assert(hex32(v)[k as int] == hex_digit(nib));
        }
        out.append(digit);
        k += 1;
    }
    proof {
        assert(out@ =~= hex32(v));
    }
    out
}

/// Appends each character's code to the checksum input.
fn push_chars(buf: &mut Vec<u32>, s: &str)
    ensures
        final(buf)@ == old(buf)@ + char_codes(s@),
{
    let n = s.unicode_len();
    let mut i: usize = 0;
    while i < n
        invariant
            i <= n,
            n == s@.len(),
            buf@ =~= old(buf)@ + char_codes(s@).subrange(0, i as int),
        decreases n - i,
    {
        let c = s.get_char(i);
        buf.push(c as u32);
        proof {
            assert(char_codes(s@)[i as int] == c as u32);
            assert(buf@ =~= old(buf)@ + char_codes(s@).subrange(0, i + 1));
        }
        i += 1;
    }
    proof {
        assert(char_codes(s@).subrange(0, n as int) =~= char_codes(s@));
        assert(buf@ =~= old(buf)@ + char_codes(s@));
    }
}

/// Numeric tag of each AR object type, for the checksum input.
pub open spec fn ar_type_code(t: ARVirtualType) -> u32 {
    match t {
        ARVirtualType::Portal => 1,
        ARVirtualType::Marker => 2,
        ARVirtualType::Overlay => 3,
        ARVirtualType::GovernancePanel => 4,
        ARVirtualType::SafetyBeacon => 5,
    }
}

/// Sign flag of a coordinate: 1 for negative, 0 otherwise.
pub open spec fn sign_flag(x: i32) -> u32 {
    if x < 0 {
        1
    } else {
        0
    }
}

/// Absolute value of a coordinate.
pub open spec fn magnitude(x: i32) -> u32 {
    if x >= 0 {
        x as u32
    } else {
        (-(x as int)) as u32
    }
}

/// Appends a coordinate as its sign flag and magnitude.
fn push_coord(buf: &mut Vec<u32>, x: i32)
    ensures
        final(buf)@ == old(buf)@ + seq![sign_flag(x), magnitude(x)],
{
    if x >= 0 {
        buf.push(0);
        buf.push(x as u32);
    } else {
        buf.push(1);
        let wide: i64 = -(x as i64);
        buf.push(wide as u32);
    }
    proof {
        assert(buf@ =~= old(buf)@ + seq![sign_flag(x), magnitude(x)]);
    }
}

/// Main AR-ready virtual object.
#[derive(Debug)]
pub struct ARVirtualObject {
    pub id: String,
    pub owner: String,
    pub vtype: ARVirtualType,
    pub geometry: Geometry,
    pub policy_tags: Vec<String>,
    pub ledger_anchor: Option<LedgerAnchor>,
    pub created_at: u64,
}

/// What the local checksum of an object covers: its identity, its
/// owner, its type tag, and its position.
pub open spec fn local_proof_input(o: ARVirtualObject) -> Seq<u32> {
    char_codes(o.id@) + char_codes(o.owner@) + seq![ar_type_code(o.vtype)] + seq![
        sign_flag(o.geometry.x),
        magnitude(o.geometry.x),
        sign_flag(o.geometry.y),
        magnitude(o.geometry.y),
        sign_flag(o.geometry.z),
        magnitude(o.geometry.z),
    ]
}

/// The hex text of an object's local checksum.
pub open spec fn local_proof_spec(o: ARVirtualObject) -> Seq<char> {
    hex32(crc_of(local_proof_input(o)))
}

impl ARVirtualObject {
    /// Local checksum over identity, owner, type and position,
    /// hex-encoded.
    pub fn local_proof(&self) -> (r: String)
        ensures
            r@ == local_proof_spec(*self),
    {
        let mut buf: Vec<u32> = Vec::new();
        push_chars(&mut buf, self.id.as_str());
        push_chars(&mut buf, self.owner.as_str());
        let code: u32 = match self.vtype {
            ARVirtualType::Portal => 1,
            ARVirtualType::Marker => 2,
            ARVirtualType::Overlay => 3,
            ARVirtualType::GovernancePanel => 4,
            ARVirtualType::SafetyBeacon => 5,
        };
        buf.push(code);
        push_coord(&mut buf, self.geometry.x);
        push_coord(&mut buf, self.geometry.y);
        push_coord(&mut buf, self.geometry.z);
        proof {
            assert(buf@ =~= local_proof_input(*self));
        }
        to_hex32(crc32ish(&buf))
    }
}

/// Whether a tag list satisfies the public-mode safety rule: at least
/// one tag marks the object non-invasive or local-only.
pub open spec fn tags_allow_public(tags: Seq<String>) -> bool {
    exists|i: int|
        0 <= i < tags.len() && ((#[trigger] tags[i])@ == "safety:noninvasive"@ || tags[i]@
            == "privacy:local-only"@)
}

/// What the compact session checksum covers: the domain, the citizen
/// mode label, whether telemetry sampling is dense, and whether an XR
/// surface is present.
pub open spec fn session_input(c: SecureArContext) -> Seq<u32> {
    char_codes(c.domain@) + char_codes(citizen_mode_label(c.citizen_profile.safety_mode)) + seq![
        (if c.telemetry.sample_interval_ms <= 10 && c.telemetry.min_samples >= 50 {
            1u32
        } else {
            0u32
        }),
        (if c.manifold.has_xr {
            1u32
        } else {
            0u32
        }),
    ]
}

/// Top-level secure context for one domain: the telemetry, state and
/// identity shards, the resolved policy, the citizen profile, and the
/// introspection seal guarding risky operations.
pub struct SecureArContext {
    pub domain: String,
    pub telemetry: TelemetryHookSet,
    pub manifold: GlobalStateManifold,
    pub identity: IdentityShard,
    pub anomaly: Option<CrossOriginAnomaly>,
    pub policy: RuntimePolicy,
    pub citizen_profile: CitizenXRProfile,
    pub seal: RuntimeIntrospectionSeal,
}

impl SecureArContext {
    /// Builds a context for `domain`, resolving its policy from the
    /// registry (deny-by-default if unregistered) and sealing it with
    /// an empty audit trail.
    pub fn new(
        domain: &str,
        telemetry: TelemetryHookSet,
        manifold: GlobalStateManifold,
        identity: IdentityShard,
        anomaly: Option<CrossOriginAnomaly>,
        policy_registry: &RuntimePolicyRegistry,
        citizen_profile: CitizenXRProfile,
    ) -> (r: Self)
        ensures
            r.domain@ == domain@,
            r.telemetry == telemetry,
            r.manifold == manifold,
            r.identity == identity,
            r.anomaly == anomaly,
            r.citizen_profile == citizen_profile,
            match policy_registry.registered(domain@) {
                Some(p) => policy_matches(r.policy, p),
                None => deny_by_default(r.policy, domain@),
            },
            policy_matches(r.seal.policy, r.policy),
            r.seal.trail@.len() == 0,
    {
        let policy = policy_registry.policy_for(domain);
        let seal = RuntimeIntrospectionSeal::new(policy.clone());
        SecureArContext {
            domain: domain.to_owned(),
            telemetry,
            manifold,
            identity,
            anomaly,
            policy,
            citizen_profile,
            seal,
        }
    }

    /// Whether high-frequency sensors such as XR or pointer tracking
    /// are allowed for this citizen.
    pub fn high_freq_allowed(&self) -> (r: bool)
        ensures
            r == self.citizen_profile.allow_high_frequency_sensors,
    {
        self.citizen_profile.can_use_high_freq()
    }

    /// Creates a virtual object if the citizen mode allows it: in
    /// public mode, only objects tagged non-invasive or local-only may
    /// be built. Every successful creation appends an
    /// `ar-object-created` audit event; every denial appends an
    /// `ar-object-blocked` event, so the refusal is not silent.
    pub fn create_ar_object(
        &mut self,
        id: String,
        owner: String,
        vtype: ARVirtualType,
        geometry: Geometry,
        policy_tags: Vec<String>,
    ) -> (r: Result<ARVirtualObject, String>)
        ensures
            ({
                let admitted = old(self).citizen_profile.safety_mode != CitizenSafetyMode::Public
                    || tags_allow_public(policy_tags@);
                &&& (!admitted ==> (r matches Err(m) && m@
                    == "Citizen mode PUBLIC requires noninvasive/local-only policy tags"@
                    && final(self).seal.trail@.drop_last() == old(self).seal.trail@
                    && final(self).seal.trail@.len() == old(self).seal.trail@.len() + 1
                    && event_matches(
                    final(self).seal.trail@.last(),
                    "ar-object-blocked"@,
                    seq![
                        ("id"@, id@),
                        ("owner"@, owner@),
                        ("mode"@, citizen_mode_label(old(self).citizen_profile.safety_mode)),
                    ],
                )))
                &&& (admitted ==> (r matches Ok(obj) && obj.id == id && obj.owner == owner
                    && obj.vtype == vtype && obj.geometry == geometry && obj.policy_tags
                    == policy_tags && obj.ledger_anchor is None && final(self).seal.trail@.drop_last()
                    == old(self).seal.trail@ && final(self).seal.trail@.len()
                    == old(self).seal.trail@.len() + 1 && event_matches(
                    final(self).seal.trail@.last(),
                    "ar-object-created"@,
                    seq![
                        ("id"@, id@),
                        ("owner"@, owner@),
                        ("mode"@, citizen_mode_label(old(self).citizen_profile.safety_mode)),
                    ],
                )))
                &&& final(self).domain == old(self).domain
                &&& final(self).telemetry == old(self).telemetry
                &&& final(self).manifold == old(self).manifold
                &&& final(self).identity == old(self).identity
                &&& final(self).anomaly == old(self).anomaly
                &&& final(self).policy == old(self).policy
                &&& final(self).citizen_profile == old(self).citizen_profile
                &&& final(self).seal.policy == old(self).seal.policy
            }),
    {
        let is_public = match self.citizen_profile.safety_mode {
            CitizenSafetyMode::Public => true,
            _ => false,
        };
        if is_public {
            let safe_tag: String = "safety:noninvasive".to_owned();
            let local_tag: String = "privacy:local-only".to_owned();
            let n = policy_tags.len();
            let mut i: usize = 0;
            let mut safe = false;
            while i < n
                invariant
                    i <= n,
                    n == policy_tags@.len(),
                    safe_tag@ == "safety:noninvasive"@,
                    local_tag@ == "privacy:local-only"@,
                    safe == exists|k: int|
                        0 <= k < i && ((#[trigger] policy_tags@[k])@ == "safety:noninvasive"@
                            || policy_tags@[k]@ == "privacy:local-only"@),
                decreases n - i,
            {
                if policy_tags[i] == safe_tag || policy_tags[i] == local_tag {
                    safe = true;
                }
                i += 1;
            }
            if !safe {
                let mut details: Vec<(String, String)> = Vec::new();
                details.push(("id".to_owned(), id));
                details.push(("owner".to_owned(), owner));
                details.push(("mode".to_owned(), self.citizen_profile.mode_label().to_owned()));
                let event = AuditEvent {
                    kind: "ar-object-blocked".to_owned(),
                    timestamp: now_millis(),
                    details,
                };
                proof {
                    assert(details_view(event.details@) =~= seq![
                        ("id"@, id@),
                        ("owner"@, owner@),
                        ("mode"@, citizen_mode_label(old(self).citizen_profile.safety_mode)),
                    ]);
                }
                self.seal.trail.push(event);
                proof {
                    assert(self.seal.trail@.drop_last() =~= old(self).seal.trail@);
                }
                return Err("Citizen mode PUBLIC requires noninvasive/local-only policy tags".to_owned());
            }
        }
        let obj = ARVirtualObject {
            id: id.clone(),
            owner: owner.clone(),
            vtype,
            geometry,
            policy_tags,
            ledger_anchor: None,
            created_at: now_millis(),
        };
        let mut details: Vec<(String, String)> = Vec::new();
        details.push(("id".to_owned(), id));
        details.push(("owner".to_owned(), owner));
        details.push(("mode".to_owned(), self.citizen_profile.mode_label().to_owned()));
        let event = AuditEvent {
            kind: "ar-object-created".to_owned(),
            timestamp: now_millis(),
            details,
        };
        proof {
            assert(details_view(event.details@) =~= seq![
                ("id"@, id@),
                ("owner"@, owner@),
                ("mode"@, citizen_mode_label(old(self).citizen_profile.safety_mode)),
            ]);
        }
        self.seal.trail.push(event);
        proof {
            assert(self.seal.trail@.drop_last() =~= old(self).seal.trail@);
        }
        Ok(obj)
    }

    /// Attaches an external ledger anchor to an object, stamping it
    /// with the object's current local checksum.
    pub fn attach_anchor(&self, obj: &mut ARVirtualObject, chain_id: &str, tx_id: &str)
        ensures
            final(obj).id == old(obj).id,
            final(obj).owner == old(obj).owner,
            final(obj).vtype == old(obj).vtype,
            final(obj).geometry == old(obj).geometry,
            final(obj).policy_tags == old(obj).policy_tags,
            final(obj).created_at == old(obj).created_at,
            final(obj).ledger_anchor matches Some(a) && a.chain_id@ == chain_id@ && a.tx_id@
                == tx_id@ && a.local_proof_hex@ == local_proof_spec(*old(obj)),
    {
        let local_hex = obj.local_proof();
        obj.ledger_anchor = Some(
            LedgerAnchor {
                chain_id: chain_id.to_owned(),
                tx_id: tx_id.to_owned(),
                local_proof_hex: local_hex,
            },
        );
    }

    /// Compact hex session checksum over the domain, the citizen mode,
    /// telemetry density and XR presence.
    pub fn session_proof_hex(&self) -> (r: String)
        ensures
            r@ == hex32(crc_of(session_input(*self))),
    {
        let mut buf: Vec<u32> = Vec::new();
        push_chars(&mut buf, self.domain.as_str());
        push_chars(&mut buf, self.citizen_profile.mode_label());
        if self.telemetry.is_dense() {
            buf.push(1);
        } else {
            buf.push(0);
        }
        if self.manifold.has_xr {
            buf.push(1);
        } else {
            buf.push(0);
        }
        proof {
            assert(buf@ =~= session_input(*self));
        }
        to_hex32(crc32ish(&buf))
    }
}

} // verus!
