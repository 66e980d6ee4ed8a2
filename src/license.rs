//! License keys, license status and the trial period.

use vstd::prelude::*;
use vstd::string::*;
use vstd::utf8::encode_utf8;
use sha2::Digest;
use crate::text::{chars_of, string_of, split_on};

verus! {

/// The kind of license a user holds.
#[derive(Clone, Copy, Debug, PartialEq, Eq, Structural)]
pub enum LicenseType {
    Trial,
    Monthly,
    Yearly,
    Lifetime,
}

/// What the user is told about their license.
#[derive(Clone, Debug)]
pub struct LicenseStatus {
    pub is_valid: bool,
    pub license_type: LicenseType,
    pub days_remaining: Option<i64>,
    pub message: String,
}

/// Where the license is kept.
#[derive(Clone, Debug)]
pub struct LicenseManager {
    pub license_file: String,
}

/// What the user is told about the trial period.
#[derive(Clone, Debug)]
pub struct TrialInfo {
    pub is_expired: bool,
    pub remaining_days: i64,
    pub version: String,
}

/// What `char::is_alphanumeric` says of a character.
pub uninterp spec fn alphanumeric(c: char) -> bool;

/// Relies on `char::is_alphanumeric`: whether the character is alphabetic
/// or numeric in Unicode's sense.
#[verifier::external_body]
fn is_alphanumeric(c: char) -> (r: bool)
    ensures
        r == alphanumeric(c),
{
    c.is_alphanumeric()
}

/// A part of a license key: four bytes of UTF-8, all alphanumeric.
pub open spec fn valid_key_part(p: Seq<char>) -> bool {
    encode_utf8(p).len() == 4 && forall|i: int| 0 <= i < p.len() ==> alphanumeric(#[trigger] p[i])
}

/// A license key: 19 bytes, four parts between dashes, each part valid.
pub open spec fn valid_license_key(k: Seq<char>) -> bool {
    let parts = split_on(k, '-');
    encode_utf8(k).len() == 19 && parts.len() == 4 && forall|i: int| 0 <= i < 4 ==> valid_key_part(#[trigger] parts[i])
}

fn valid_part(p: &Vec<char>) -> (r: bool)
    ensures
        r == valid_key_part(p@),
{
    let s = string_of(p);
    if s.as_str().as_bytes().len() != 4 {
        return false;
    }
    assert(encode_utf8(p@).len() == 4);
    let mut i: usize = 0;
    while i < p.len()
        invariant
            i <= p@.len(),
            encode_utf8(p@).len() == 4,
            forall|k: int| 0 <= k < i ==> alphanumeric(#[trigger] p@[k]),
        decreases p@.len() - i,
    {
        if !is_alphanumeric(p[i]) {
            return false;
        }
        i = i + 1;
    }
    true
}

/// The license file inside the application's data directory.
pub fn get_license_file_path(app_data_dir: &str) -> (r: String)
    ensures
        r@ == app_data_dir@ + "/license.json"@,
{
    let mut s = String::from_str(app_data_dir);
    s.append("/license.json");
    s
}

impl LicenseManager {
    /// A manager keeping the license in the given application data directory.
    pub fn in_dir(app_data_dir: &str) -> (r: LicenseManager)
        ensures
            r.license_file@ == app_data_dir@ + "/license.json"@,
    {
        LicenseManager { license_file: get_license_file_path(app_data_dir) }
    }

    /// Tells whether `key` has the shape of a license key (see `valid_license_key`).
    pub fn validate_license_format(&self, key: &str) -> (r: bool)
        ensures
            r == valid_license_key(key@),
    {
        if key.as_bytes().len() != 19 {
            return false;
        }
        assert(encode_utf8(key@).len() == 19);
        let v = chars_of(key);
        let n = v.len();
        let mut parts: Vec<Vec<char>> = Vec::new();
        let mut cur: Vec<char> = Vec::new();
        let mut i: usize = 0;
        assert(v@.subrange(0, 0) =~= Seq::<char>::empty());
        assert(parts@.map_values(|x: Vec<char>| x@).push(cur@) =~= seq![Seq::<char>::empty()]);
        while i < n
            invariant
                i <= n == v@.len(),
                v@ == key@,
                encode_utf8(key@).len() == 19,
                split_on(v@.subrange(0, i as int), '-') == parts@.map_values(|x: Vec<char>| x@).push(cur@),
            decreases n - i,
        {
            let c = v[i];
            let ghost done = parts@.map_values(|x: Vec<char>| x@);
            assert(v@.subrange(0, i + 1).drop_last() =~= v@.subrange(0, i as int));
            assert(v@.subrange(0, i + 1).last() == c);
            if c == '-' {
                parts.push(cur);
                cur = Vec::new();
                assert(parts@.map_values(|x: Vec<char>| x@) =~= done.push(split_on(v@.subrange(0, i as int), '-').last()));
            } else {
                cur.push(c);
            }
            i = i + 1;
            assert(split_on(v@.subrange(0, i as int), '-') =~= parts@.map_values(|x: Vec<char>| x@).push(cur@));
        }
        assert(v@.subrange(0, n as int) =~= v@);
        parts.push(cur);
        let ghost all = parts@.map_values(|x: Vec<char>| x@);
        assert(all =~= split_on(key@, '-'));
        if parts.len() != 4 {
            return false;
        }
        let mut k: usize = 0;
        while k < 4
            invariant
                k <= 4,
                parts@.len() == 4,
                all == parts@.map_values(|x: Vec<char>| x@),
                all == split_on(key@, '-'),
                encode_utf8(key@).len() == 19,
                forall|j: int| 0 <= j < k ==> valid_key_part(#[trigger] all[j]),
            decreases 4 - k,
        {
            if !valid_part(&parts[k]) {
                assert(!valid_key_part(all[k as int]));
                return false;
            }
            k = k + 1;
        }
        true
    }
}

impl LicenseType {
    /// The license type a license server names: `monthly`, `yearly` or `lifetime`.
    pub fn from_server(name: &str) -> (r: Option<LicenseType>)
        ensures
            r == (if name@ == "monthly"@ {
                Some(LicenseType::Monthly)
            } else if name@ == "yearly"@ {
                Some(LicenseType::Yearly)
            } else if name@ == "lifetime"@ {
                Some(LicenseType::Lifetime)
            } else {
                None
            }),
    {
        let s = String::from_str(name);
        if s == String::from_str("monthly") {
            Some(LicenseType::Monthly)
        } else if s == String::from_str("yearly") {
            Some(LicenseType::Yearly)
        } else if s == String::from_str("lifetime") {
            Some(LicenseType::Lifetime)
        } else {
            None
        }
    }

    pub open spec fn label(self) -> Seq<char> {
        match self {
            LicenseType::Trial => "Trial"@,
            LicenseType::Monthly => "Monthly"@,
            LicenseType::Yearly => "Yearly"@,
            LicenseType::Lifetime => "Lifetime"@,
        }
    }

    /// The type's name as the user sees it.
    pub fn name(&self) -> (r: String)
        ensures
            r@ == self.label(),
    {
        match self {
            LicenseType::Trial => String::from_str("Trial"),
            LicenseType::Monthly => String::from_str("Monthly"),
            LicenseType::Yearly => String::from_str("Yearly"),
            LicenseType::Lifetime => String::from_str("Lifetime"),
        }
    }
}

pub const SECONDS_PER_DAY: i64 = 86400;

/// The status of a license of type `t` that expires at `expiry` (seconds
/// since the epoch; none for a lifetime license), at time `now`: expired
/// after its expiry, else valid with the whole days that remain.
pub fn license_status_at(t: LicenseType, expiry: Option<i64>, now: i64) -> (r: LicenseStatus)
    ensures
        match expiry {
            Some(e) => if now > e {
                !r.is_valid && r.license_type == t && r.days_remaining == Some(0i64) && r.message@
                    == "License expired"@
            } else {
                r.is_valid && r.license_type == t && r.days_remaining == Some(((e - now) / 86400) as i64)
                    && r.message@ == "License active - "@ + t.label() + " license"@
            },
            None => r.is_valid && r.license_type == LicenseType::Lifetime && r.days_remaining is None
                && r.message@ == "Lifetime license active"@,
        },
{
    match expiry {
        Some(e) => {
            if now > e {
                LicenseStatus {
                    is_valid: false,
                    license_type: t,
                    days_remaining: Some(0),
                    message: String::from_str("License expired"),
                }
            } else {
                let diff: i128 = (e as i128) - (now as i128);
                let days = (diff / 86400) as i64;
                let mut m = String::from_str("License active - ");
                m.append(t.name().as_str());
                m.append(" license");
                LicenseStatus { is_valid: true, license_type: t, days_remaining: Some(days), message: m }
            }
        },
        None => LicenseStatus {
            is_valid: true,
            license_type: LicenseType::Lifetime,
            days_remaining: None,
            message: String::from_str("Lifetime license active"),
        },
    }
}

/// What `sha2::Sha256` digests bytes to, in lower-case hexadecimal.
pub uninterp spec fn sha256_hex_of(data: Seq<u8>) -> Seq<char>;

/// Relies on `sha2::Sha256::digest` and the digest's `LowerHex` format: the
/// SHA-256 of the bytes in lower-case hexadecimal, a function of the bytes alone.
#[verifier::external_body]
fn sha256_hex(data: &[u8]) -> (r: String)
    ensures
        r@ == sha256_hex_of(data@),
{
    format!("{:x}", sha2::Sha256::digest(data))
}

/// The machine's identifier: the SHA-256, in hexadecimal, of its host name,
/// its MAC address and its operating system's name, those known, in that order.
pub fn machine_id(host: Option<&str>, mac: Option<&str>, os: &str) -> (r: String)
    ensures
        r@ == sha256_hex_of(encode_utf8(
            (match host {
                Some(h) => h@,
                None => Seq::empty(),
            }) + (match mac {
                Some(m) => m@,
                None => Seq::empty(),
            }) + os@,
        )),
{
    let mut s = String::new();
    match host {
        Some(h) => s.append(h),
        None => {},
    }
    match mac {
        Some(m) => s.append(m),
        None => {},
    }
    s.append(os);
    assert(s@ =~= (match host {
        Some(h) => h@,
        None => Seq::empty(),
    }) + (match mac {
        Some(m) => m@,
        None => Seq::empty(),
    }) + os@);
    sha256_hex(s.as_str().as_bytes())
}

/// The days of the trial period.
pub const TRIAL_DAYS: u64 = 90;

/// The key that the stored installation time is XOR-ed with.
pub const INSTALL_STAMP_KEY: u64 = 0xDEADBEEFCAFEBABE;

/// The stored form of an installation time.
pub fn install_stamp(installed_at: u64) -> (r: u64)
    ensures
        r == installed_at ^ INSTALL_STAMP_KEY,
{
    installed_at ^ INSTALL_STAMP_KEY
}

/// The number eight little-endian bytes stand for.
pub open spec fn le_u64(b: Seq<u8>) -> int {
    b[0] as int + 256 * b[1] as int + 65536 * b[2] as int + 16777216 * b[3] as int + 4294967296
        * b[4] as int + 1099511627776 * b[5] as int + 281474976710656 * b[6] as int
        + 72057594037927936 * b[7] as int
}

/// The installation time a stored stamp holds; a stamp that is not exactly
/// eight bytes long is corrupt.
pub fn read_install_stamp(bytes: &[u8]) -> (r: Option<u64>)
    ensures
        bytes@.len() != 8 ==> r is None,
        bytes@.len() == 8 ==> r == Some((le_u64(bytes@) as u64) ^ INSTALL_STAMP_KEY),
{
    if bytes.len() != 8 {
        return None;
    }
    let v: u64 = bytes[0] as u64 + 256 * (bytes[1] as u64) + 65536 * (bytes[2] as u64) + 16777216
        * (bytes[3] as u64) + 4294967296 * (bytes[4] as u64) + 1099511627776 * (bytes[5] as u64)
        + 281474976710656 * (bytes[6] as u64) + 72057594037927936 * (bytes[7] as u64);
    Some(v ^ INSTALL_STAMP_KEY)
}

/// Reading back a stored stamp gives the installation time.
pub proof fn lemma_install_stamp_round_trip(t: u64)
    ensures
        (t ^ INSTALL_STAMP_KEY) ^ INSTALL_STAMP_KEY == t,
{
    assert((t ^ 0xDEADBEEFCAFEBABEu64) ^ 0xDEADBEEFCAFEBABEu64 == t) by (bit_vector);
}

/// The trial status `days` whole days after installation.
pub fn trial_info(active_days: u64, version: &str) -> (r: TrialInfo)
    ensures
        r.is_expired == (active_days > TRIAL_DAYS),
        r.remaining_days == (if active_days >= TRIAL_DAYS {
            0
        } else {
            TRIAL_DAYS - active_days
        }),
        r.version@ == version@,
{
    let remaining: u64 = if active_days >= TRIAL_DAYS {
        0
    } else {
        TRIAL_DAYS - active_days
    };
    TrialInfo {
        is_expired: active_days > TRIAL_DAYS,
        remaining_days: remaining as i64,
        version: String::from_str(version),
    }
}

/// The whole days from `installed_at` to `now` (seconds since the epoch);
/// none when the clock reads earlier than the installation.
pub fn active_days(installed_at: u64, now: u64) -> (r: u64)
    ensures
        r == (if now >= installed_at {
            (now - installed_at) / 86400
        } else {
            0
        }),
{
    if now >= installed_at {
        (now - installed_at) / 86400
    } else {
        0
    }
}

} // verus!
