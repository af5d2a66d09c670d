//! Static facts about the chip: core counts, memory size and frequency tables.
use vstd::prelude::*;
use vstd::string::*;
use crate::text::{contains, ends_with, is_infix, is_prefix, is_suffix, starts_with};

verus! {

/// Static facts about the chip, resolved once before sampling.
#[derive(Debug, Clone)]
pub struct SocInfo {
    pub mac_model: String,
    pub chip_name: String,
    pub memory_gb: u8,
    pub ecpu_cores: u8,
    pub pcpu_cores: u8,
    /// Efficiency-core frequency table, MHz.
    pub ecpu_freqs: Vec<u32>,
    /// Performance-core frequency table, MHz.
    pub pcpu_freqs: Vec<u32>,
    pub gpu_cores: u8,
    /// GPU frequency table, MHz; its first entry is the powered-off state.
    pub gpu_freqs: Vec<u32>,
}

/// A frequency table sorted ascending.
pub open spec fn ascending(freqs: Seq<u32>) -> bool {
    forall|i: int, j: int| 0 <= i <= j < freqs.len() ==> freqs[i] <= freqs[j]
}

impl SocInfo {
    /// Both CPU frequency tables are non-empty, and all three are sorted ascending.
    pub open spec fn wf(&self) -> bool {
        &&& self.ecpu_freqs@.len() > 0
        &&& self.pcpu_freqs@.len() > 0
        &&& ascending(self.ecpu_freqs@)
        &&& ascending(self.pcpu_freqs@)
        &&& ascending(self.gpu_freqs@)
    }
}

/// Whether a frequency table is sorted ascending.
pub fn is_ascending(v: &Vec<u32>) -> (r: bool)
    ensures
        r == ascending(v@),
{
    let n = v.len();
    if n == 0 {
        return true;
    }
    let mut k: usize = 1;
    while k < n
        invariant
            n == v@.len(),
            1 <= k <= n,
            forall|i: int, j: int| 0 <= i <= j < k ==> v@[i] <= v@[j],
        decreases n - k,
    {
        if v[k - 1] > v[k] {
            return false;
        }
        assert forall|i: int, j: int| 0 <= i <= j < k + 1 implies v@[i] <= v@[j] by {
            if j == k && i < k {
                assert(v@[i] <= v@[k - 1]);
            }
        }
        k = k + 1;
    }
    true
}

/// Each raw table entry divided by `scale`.
pub open spec fn scaled_table(vals: Seq<u32>, scale: u32) -> Seq<u32> {
    Seq::new(vals.len(), |i: int| (vals[i] / scale) as u32)
}

/// Divides each raw table entry by `scale` (to turn Hz or kHz into MHz).
pub fn to_mhz(vals: Vec<u32>, scale: u32) -> (r: Vec<u32>)
    requires
        scale > 0,
    ensures
        r@ == scaled_table(vals@, scale),
{
    let mut out: Vec<u32> = Vec::new();
    let mut i: usize = 0;
    while i < vals.len()
        invariant
            scale > 0,
            i <= vals@.len(),
            out@ == scaled_table(vals@, scale).subrange(0, i as int),
        decreases vals@.len() - i,
    {
        out.push(vals[i] / scale);
        i = i + 1;
        assert(out@ =~= scaled_table(vals@, scale).subrange(0, i as int));
    }
    assert(out@ =~= scaled_table(vals@, scale));
    out
}

/// The 32-bit little-endian integer in the four bytes of `b` from `at` on.
pub open spec fn le_u32(b: Seq<u8>, at: int) -> int {
    b[at] + 256 * b[at + 1] + 65536 * b[at + 2] + 16777216 * b[at + 3]
}

/// Frequencies held in a table blob: the first field of each whole 8-byte record.
pub open spec fn dvfs_freqs(b: Seq<u8>) -> Seq<u32> {
    Seq::new(b.len() / 8, |i: int| le_u32(b, 8 * i) as u32)
}

/// Voltages held in a table blob: the second field of each whole 8-byte record.
pub open spec fn dvfs_volts(b: Seq<u8>) -> Seq<u32> {
    Seq::new(b.len() / 8, |i: int| le_u32(b, 8 * i + 4) as u32)
}

fn read_le_u32(b: &Vec<u8>, at: usize) -> (r: u32)
    requires
        at + 4 <= b@.len(),
    ensures
        r == le_u32(b@, at as int),
{
    let _n = b.len();
    let r = b[at] as u32 + 256 * (b[at + 1] as u32) + 65536 * (b[at + 2] as u32) + 16777216 * (
    b[at + 3] as u32);
    r
}

/// Decodes a voltage-state blob, a sequence of 8-byte records of a little-endian
/// frequency and a little-endian voltage, into (voltages, frequencies). A trailing
/// partial record is ignored.
pub fn get_dvfs_mhz(blob: &Vec<u8>) -> (r: (Vec<u32>, Vec<u32>))
    ensures
        r.0@ == dvfs_volts(blob@),
        r.1@ == dvfs_freqs(blob@),
{
    let len = blob.len();
    let count = len / 8;
    let mut volts: Vec<u32> = Vec::new();
    let mut freqs: Vec<u32> = Vec::new();
    let mut i: usize = 0;
    while i < count
        invariant
            len == blob@.len(),
            count == len / 8,
            i <= count,
            volts@ == dvfs_volts(blob@).subrange(0, i as int),
            freqs@ == dvfs_freqs(blob@).subrange(0, i as int),
        decreases count - i,
    {
        assert(8 * i + 8 <= blob@.len()) by (nonlinear_arith)
            requires
                i < count,
                count == len / 8,
                len == blob@.len(),
        ;
        volts.push(read_le_u32(blob, 8 * i + 4));
        freqs.push(read_le_u32(blob, 8 * i));
        i = i + 1;
        assert(volts@ =~= dvfs_volts(blob@).subrange(0, i as int));
        assert(freqs@ =~= dvfs_freqs(blob@).subrange(0, i as int));
    }
    assert(volts@ =~= dvfs_volts(blob@));
    assert(freqs@ =~= dvfs_freqs(blob@));
    (volts, freqs)
}

// ---------------------------------------------------------------------------
// The inventory's text fields

pub open spec fn is_digit(c: char) -> bool {
    '0' <= c && c <= '9'
}

pub open spec fn all_digits(s: Seq<char>) -> bool {
    forall|i: int| 0 <= i < s.len() ==> is_digit(#[trigger] s[i])
}

/// Value of a string of decimal digits.
pub open spec fn digits_value(s: Seq<char>) -> int
    decreases s.len(),
{
    if s.len() == 0 {
        0
    } else {
        digits_value(s.drop_last()) * 10 + (s.last() as int - '0' as int)
    }
}

/// Decimal text as an unsigned 64-bit integer: an optional `+`, then one or more
/// digits, of value at most `u64::MAX`.
pub open spec fn parse_u64_spec(s: Seq<char>) -> Option<u64> {
    let d = if s.len() > 0 && s[0] == '+' { s.drop_first() } else { s };
    if d.len() > 0 && all_digits(d) && digits_value(d) <= u64::MAX {
        Some(digits_value(d) as u64)
    } else {
        None
    }
}

/// The parsed number, or zero when the text is no number.
pub open spec fn parse_or_zero(s: Seq<char>) -> u64 {
    match parse_u64_spec(s) {
        Some(v) => v,
        None => 0,
    }
}

proof fn lemma_digits_nonneg(s: Seq<char>)
    requires
        all_digits(s),
    ensures
        digits_value(s) >= 0,
    decreases s.len(),
{
    if s.len() > 0 {
        assert(all_digits(s.drop_last())) by {
            assert forall|i: int| 0 <= i < s.drop_last().len() implies is_digit(
                #[trigger] s.drop_last()[i],
            ) by {
                assert(s.drop_last()[i] == s[i]);
            }
        }
        lemma_digits_nonneg(s.drop_last());
        assert(is_digit(s[s.len() - 1]));
    }
}

/// A string of digits is worth at least any of its prefixes.
proof fn lemma_digits_grow(s: Seq<char>, k: int)
    requires
        all_digits(s),
        0 <= k <= s.len(),
    ensures
        digits_value(s.subrange(0, k)) <= digits_value(s),
    decreases s.len() - k,
{
    if k < s.len() {
        lemma_digits_grow(s, k + 1);
        let t = s.subrange(0, k + 1);
        assert(t.drop_last() =~= s.subrange(0, k));
        assert(all_digits(s.subrange(0, k))) by {
            assert forall|i: int| 0 <= i < k implies is_digit(#[trigger] s.subrange(0, k)[i]) by {
                assert(s.subrange(0, k)[i] == s[i]);
            }
        }
        lemma_digits_nonneg(s.subrange(0, k));
        assert(is_digit(s[k]));
        assert(t.last() == s[k]);
        let x = digits_value(s.subrange(0, k));
        assert(digits_value(t) == x * 10 + (s[k] as int - '0' as int));
        assert(x <= x * 10 + (s[k] as int - '0' as int)) by (nonlinear_arith)
            requires
                x >= 0,
                s[k] as int - '0' as int >= 0,
        ;
    } else {
        assert(s.subrange(0, k) =~= s);
    }
}

/// Reads decimal text as `u64` (see `parse_u64_spec`).
pub fn parse_u64(s: &str) -> (r: Option<u64>)
    ensures
        r == parse_u64_spec(s@),
{
    let n = s.unicode_len();
    let start: usize = if n > 0 && s.get_char(0) == '+' {
        1
    } else {
        0
    };
    let ghost d = if s@.len() > 0 && s@[0] == '+' { s@.drop_first() } else { s@ };
    assert(d =~= s@.subrange(start as int, n as int));
    if start >= n {
        return None;
    }
    let mut acc: u64 = 0;
    let mut i: usize = start;
    while i < n
        invariant
            n == s@.len(),
            start <= i <= n,
            d == s@.subrange(start as int, n as int),
            d == (if s@.len() > 0 && s@[0] == '+' { s@.drop_first() } else { s@ }),
            all_digits(s@.subrange(start as int, i as int)),
            acc == digits_value(s@.subrange(start as int, i as int)),
        decreases n - i,
    {
        let c = s.get_char(i);
        if !('0' <= c && c <= '9') {
            assert(d[i - start] == c);
            assert(!is_digit(d[i - start]));
            assert(!all_digits(d));
            assert(parse_u64_spec(s@) is None);
            return None;
        }
        let digit = (c as u32 - '0' as u32) as u64;
        let ghost prev = s@.subrange(start as int, i as int);
        let ghost next = s@.subrange(start as int, i + 1);
        assert(next.drop_last() =~= prev);
        assert(all_digits(next)) by {
            assert forall|j: int| 0 <= j < next.len() implies is_digit(#[trigger] next[j]) by {
                if j < prev.len() {
                    assert(next[j] == prev[j]);
                }
            }
        }
        if acc > (u64::MAX - digit) / 10 {
            proof {
                assert(digits_value(next) > u64::MAX) by (nonlinear_arith)
                    requires
                        digits_value(next) == acc * 10 + digit,
                        acc > (u64::MAX - digit) / 10,
                        digit <= 9,
                ;
                if all_digits(d) {
                    assert(next =~= d.subrange(0, i + 1 - start));
                    lemma_digits_grow(d, i + 1 - start);
                    assert(digits_value(d) > u64::MAX);
                }
                assert(parse_u64_spec(s@) is None);
            }
            return None;
        }
        acc = acc * 10 + digit;
        i = i + 1;
    }
    Some(acc)
}

/// The memory size in an inventory text `"<n> GB"`; zero if absent or otherwise shaped.
pub open spec fn memory_gb_spec(text: Option<Seq<char>>) -> u64 {
    match text {
        Some(t) => if is_suffix(" GB"@, t) {
            parse_or_zero(t.subrange(0, t.len() - 3))
        } else {
            0
        },
        None => 0,
    }
}

pub fn parse_memory_gb(text: Option<&str>) -> (r: u64)
    ensures
        r == memory_gb_spec(match text {
            Some(t) => Some(t@),
            None => None::<Seq<char>>,
        }),
{
    match text {
        Some(t) => {
            if ends_with(t, " GB") {
                proof {
                    reveal_strlit(" GB");
                }
                let n = t.unicode_len();
                let head = t.substring_char(0, n - 3);
                match parse_u64(head) {
                    Some(v) => v,
                    None => 0,
                }
            } else {
                0
            }
        },
        None => 0,
    }
}

/// First index at or after `i` holding `c` (the length if none).
pub open spec fn find_from(s: Seq<char>, c: char, i: int) -> int
    decreases s.len() - i,
{
    if i >= s.len() {
        s.len() as int
    } else if s[i] == c {
        i
    } else {
        find_from(s, c, i + 1)
    }
}

proof fn lemma_find_from_bounds(s: Seq<char>, c: char, i: int)
    requires
        0 <= i,
    ensures
        find_from(s, c, i) >= i || (i > s.len() && find_from(s, c, i) == s.len()),
        find_from(s, c, i) <= s.len() || find_from(s, c, i) == i,
    decreases s.len() - i,
{
    if i < s.len() && s[i] != c {
        lemma_find_from_bounds(s, c, i + 1);
    }
}

fn find_char_from(s: &str, n: usize, c: char, i: usize) -> (r: usize)
    requires
        n == s@.len(),
        i <= n,
    ensures
        r == find_from(s@, c, i as int),
        i <= r <= n,
{
    let mut j: usize = i;
    while j < n && s.get_char(j) != c
        invariant
            n == s@.len(),
            i <= j <= n,
            find_from(s@, c, i as int) == find_from(s@, c, j as int),
        decreases n - j,
    {
        j = j + 1;
    }
    j
}

/// Core counts in an inventory text `"proc <total>:<performance>:<efficiency>"`, as
/// (efficiency, performance): the text after `proc ` must split at `:` into exactly
/// three fields, each a number; otherwise there are none.
pub open spec fn cpu_cores_spec(text: Option<Seq<char>>) -> Option<(u64, u64)> {
    match text {
        Some(t) => if is_prefix("proc "@, t) {
            let rest = t.subrange(5, t.len() as int);
            let i1 = find_from(rest, ':', 0);
            let i2 = find_from(rest, ':', i1 + 1);
            let i3 = find_from(rest, ':', i2 + 1);
            let total = parse_u64_spec(rest.subrange(0, i1));
            let perf = parse_u64_spec(rest.subrange(i1 + 1, i2));
            let eff = parse_u64_spec(rest.subrange(i2 + 1, rest.len() as int));
            if i1 < rest.len() && i2 < rest.len() && i3 == rest.len() && total is Some && perf is Some
                && eff is Some {
                Some((eff.unwrap(), perf.unwrap()))
            } else {
                None
            }
        } else {
            None
        },
        None => None,
    }
}

pub fn parse_cpu_cores(text: Option<&str>) -> (r: Option<(u64, u64)>)
    ensures
        r == cpu_cores_spec(opt_view(text)),
{
    proof {
        reveal_strlit("proc ");
    }
    let t = match text {
        Some(t) => t,
        None => return None,
    };
    if !starts_with(t, "proc ") {
        return None;
    }
    let len = t.unicode_len();
    let rest = t.substring_char(5, len);
    let n = rest.unicode_len();
    let i1 = find_char_from(rest, n, ':', 0);
    if i1 >= n {
        return None;
    }
    let i2 = find_char_from(rest, n, ':', i1 + 1);
    if i2 >= n {
        return None;
    }
    let i3 = find_char_from(rest, n, ':', i2 + 1);
    if i3 != n {
        return None;
    }
    let total = parse_u64(rest.substring_char(0, i1));
    let perf = parse_u64(rest.substring_char(i1 + 1, i2));
    let eff = parse_u64(rest.substring_char(i2 + 1, n));
    match (total, perf, eff) {
        (Some(_), Some(p), Some(e)) => Some((e, p)),
        _ => None,
    }
}

/// Whether the chip predates the generation whose CPU tables are in kHz (its name
/// names an M1, M2 or M3).
pub open spec fn stores_hz_spec(chip: Seq<char>) -> bool {
    is_infix("M1"@, chip) || is_infix("M2"@, chip) || is_infix("M3"@, chip)
}

/// The divisor that turns the chip's CPU table entries into MHz: 1 000 000 for chips
/// that store Hz, 1 000 for those that store kHz.
pub fn cpu_freq_scale(chip: &str) -> (r: u32)
    ensures
        r == (if stores_hz_spec(chip@) { 1_000_000u32 } else { 1_000u32 }),
{
    if contains(chip, "M1") || contains(chip, "M2") || contains(chip, "M3") {
        1_000_000
    } else {
        1_000
    }
}

/// Divisor for the GPU table entries (stored in Hz).
pub const GPU_FREQ_SCALE: u32 = 1_000_000;

/// Why discovery failed.
#[derive(Clone, Copy, Debug, PartialEq, Eq, Structural)]
pub enum ProfileError {
    /// The inventory report is not a JSON document.
    Report,
    /// The processor topology is not three colon-separated numbers.
    Topology,
    /// A CPU frequency table is empty.
    NoCpuFrequencies,
    /// A frequency table is not sorted ascending.
    Unsorted,
}

/// The voltage-state blobs of the power manager: efficiency cores, performance cores, GPU.
pub struct DvfsBlobs {
    pub ecpu: Vec<u8>,
    pub pcpu: Vec<u8>,
    pub gpu: Vec<u8>,
}

pub open spec fn opt_view(o: Option<&str>) -> Option<Seq<char>> {
    match o {
        Some(t) => Some(t@),
        None => None,
    }
}

fn text_or(o: Option<&str>, default: &str) -> (r: String)
    ensures
        r@ == (match o {
            Some(t) => t@,
            None => default@,
        }),
{
    match o {
        Some(t) => t.to_owned(),
        None => default.to_owned(),
    }
}

/// The voltage-state blobs as byte sequences.
pub open spec fn blob_views(blobs: Option<&DvfsBlobs>) -> Option<(Seq<u8>, Seq<u8>, Seq<u8>)> {
    match blobs {
        Some(b) => Some((b.ecpu@, b.pcpu@, b.gpu@)),
        None => None,
    }
}

/// The chip name, defaulted when absent.
pub open spec fn chip_name_spec(chip: Option<Seq<char>>) -> Seq<char> {
    match chip {
        Some(t) => t,
        None => "Unknown chip"@,
    }
}

/// One CPU frequency table: the blob's frequencies in MHz for the chip's generation.
pub open spec fn cpu_table_spec(chip: Option<Seq<char>>, blob: Option<Seq<u8>>) -> Seq<u32> {
    let scale = if stores_hz_spec(chip_name_spec(chip)) { 1_000_000u32 } else { 1_000u32 };
    match blob {
        Some(b) => scaled_table(dvfs_freqs(b), scale),
        None => Seq::empty(),
    }
}

/// The outcome of building a profile from the inventory's text fields and the blobs:
/// a malformed topology fails first, then an empty CPU table, then an unsorted table;
/// otherwise every field is as stated.
pub open spec fn profile_matches(
    chip: Option<Seq<char>>,
    model: Option<Seq<char>>,
    memory: Option<Seq<char>>,
    processors: Option<Seq<char>>,
    gpu_cores: Option<Seq<char>>,
    blobs: Option<(Seq<u8>, Seq<u8>, Seq<u8>)>,
    r: Result<SocInfo, ProfileError>,
) -> bool {
    let ecpu = cpu_table_spec(chip, match blobs { Some(b) => Some(b.0), None => None });
    let pcpu = cpu_table_spec(chip, match blobs { Some(b) => Some(b.1), None => None });
    let gpu = match blobs {
        Some(b) => scaled_table(dvfs_freqs(b.2), GPU_FREQ_SCALE),
        None => Seq::empty(),
    };
    let cores = cpu_cores_spec(processors);
    if cores is None {
        r == Err::<SocInfo, ProfileError>(ProfileError::Topology)
    } else if ecpu.len() == 0 || pcpu.len() == 0 {
        r == Err::<SocInfo, ProfileError>(ProfileError::NoCpuFrequencies)
    } else if !(ascending(ecpu) && ascending(pcpu) && ascending(gpu)) {
        r == Err::<SocInfo, ProfileError>(ProfileError::Unsorted)
    } else {
        match r {
            Ok(info) => {
                &&& info.chip_name@ == chip_name_spec(chip)
                &&& info.mac_model@ == (match model {
                    Some(t) => t,
                    None => "Unknown model"@,
                })
                &&& info.memory_gb == memory_gb_spec(memory) % 256
                &&& info.ecpu_cores == cores.unwrap().0 % 256
                &&& info.pcpu_cores == cores.unwrap().1 % 256
                &&& info.gpu_cores == parse_or_zero(
                    match gpu_cores {
                        Some(t) => t,
                        None => "0"@,
                    },
                ) % 256
                &&& info.ecpu_freqs@ == ecpu
                &&& info.pcpu_freqs@ == pcpu
                &&& info.gpu_freqs@ == gpu
            },
            Err(_) => false,
        }
    }
}

impl SocInfo {
    /// Builds the chip profile from the inventory's text fields and the power manager's
    /// voltage-state blobs (absent when no power manager was found); see
    /// `profile_matches`. A missing or malformed memory size or GPU core count reads as
    /// zero; counts are kept modulo 256.
    pub fn from_profile(
        chip: Option<&str>,
        model: Option<&str>,
        memory: Option<&str>,
        processors: Option<&str>,
        gpu_cores: Option<&str>,
        blobs: Option<&DvfsBlobs>,
    ) -> (r: Result<SocInfo, ProfileError>)
        ensures
            profile_matches(
                opt_view(chip),
                opt_view(model),
                opt_view(memory),
                opt_view(processors),
                opt_view(gpu_cores),
                blob_views(blobs),
                r,
            ),
            r matches Ok(info) ==> info.wf(),
    {
        let chip_name = text_or(chip, "Unknown chip");
        let mac_model = text_or(model, "Unknown model");
        let mem_gb = parse_memory_gb(memory);
        let (ecpu_cores, pcpu_cores) = match parse_cpu_cores(processors) {
            Some(c) => c,
            None => return Err(ProfileError::Topology),
        };
        let gpu = match parse_u64(
            match gpu_cores {
                Some(t) => t,
                None => "0",
            },
        ) {
            Some(v) => v,
            None => 0,
        };
        let cpu_scale = cpu_freq_scale(chip_name.as_str());
        let (ecpu_freqs, pcpu_freqs, gpu_freqs) = match blobs {
            Some(b) => {
                let (_v1, e) = get_dvfs_mhz(&b.ecpu);
                let (_v2, p) = get_dvfs_mhz(&b.pcpu);
                let (_v3, g) = get_dvfs_mhz(&b.gpu);
                (to_mhz(e, cpu_scale), to_mhz(p, cpu_scale), to_mhz(g, GPU_FREQ_SCALE))
            },
            None => (Vec::new(), Vec::new(), Vec::new()),
        };
        if ecpu_freqs.len() == 0 || pcpu_freqs.len() == 0 {
            return Err(ProfileError::NoCpuFrequencies);
        }
        if !(is_ascending(&ecpu_freqs) && is_ascending(&pcpu_freqs) && is_ascending(&gpu_freqs)) {
            return Err(ProfileError::Unsorted);
        }
        Ok(SocInfo {
            mac_model,
            chip_name,
            memory_gb: (mem_gb % 256) as u8,
            ecpu_cores: (ecpu_cores % 256) as u8,
            pcpu_cores: (pcpu_cores % 256) as u8,
            ecpu_freqs,
            pcpu_freqs,
            gpu_cores: (gpu % 256) as u8,
            gpu_freqs,
        })
    }
}

// ---------------------------------------------------------------------------
// The inventory report

/// Whether the text is a JSON document (what serde_json accepts).
pub uninterp spec fn json_doc(report: Seq<char>) -> bool;

/// The JSON string at a JSON Pointer path of a document, if there is one.
pub uninterp spec fn json_str_at(report: Seq<char>, path: Seq<char>) -> Option<Seq<char>>;

/// Relies on serde_json::from_str: whether the text parses as a JSON document, which
/// depends on the text alone.
#[verifier::external_body]
fn report_is_json(report: &str) -> (r: bool)
    ensures
        r == json_doc(report@),
{
    serde_json::from_str::<serde_json::Value>(report).is_ok()
}

/// Relies on serde_json::from_str, Value::pointer and Value::as_str: the string at a
/// path of the document, which depends on the text and the path alone; none when the
/// text is not a document.
#[verifier::external_body]
fn report_text_at(report: &str, path: &str) -> (r: Option<String>)
    ensures
        (match r {
            Some(t) => Some(t@),
            None => None,
        }) == json_str_at(report@, path@),
        !json_doc(report@) ==> r is None,
{
    let doc = serde_json::from_str::<serde_json::Value>(report).ok()?;
    doc.pointer(path)?.as_str().map(|t| t.to_string())
}

pub open spec fn string_view(o: Option<String>) -> Option<Seq<char>> {
    match o {
        Some(t) => Some(t@),
        None => None,
    }
}

fn as_opt_str(o: &Option<String>) -> (r: Option<&str>)
    ensures
        opt_view(r) == string_view(*o),
{
    match o {
        Some(t) => Some(t.as_str()),
        None => None,
    }
}

impl SocInfo {
    /// Builds the chip profile from the inventory tool's JSON report and the power
    /// manager's voltage-state blobs, as `from_profile` does with the report's chip name,
    /// model, memory size, processor topology and GPU core count. Fails when the report
    /// is not JSON.
    pub fn from_report(report: &str, blobs: Option<&DvfsBlobs>) -> (r: Result<SocInfo, ProfileError>)
        ensures
            !json_doc(report@) ==> r == Err::<SocInfo, ProfileError>(ProfileError::Report),
            json_doc(report@) ==> profile_matches(
                json_str_at(report@, "/SPHardwareDataType/0/chip_type"@),
                json_str_at(report@, "/SPHardwareDataType/0/machine_model"@),
                json_str_at(report@, "/SPHardwareDataType/0/physical_memory"@),
                json_str_at(report@, "/SPHardwareDataType/0/number_processors"@),
                json_str_at(report@, "/SPDisplaysDataType/0/sppci_cores"@),
                blob_views(blobs),
                r,
            ),
            r matches Ok(info) ==> info.wf(),
    {
        if !report_is_json(report) {
            return Err(ProfileError::Report);
        }
        let chip = report_text_at(report, "/SPHardwareDataType/0/chip_type");
        let model = report_text_at(report, "/SPHardwareDataType/0/machine_model");
        let memory = report_text_at(report, "/SPHardwareDataType/0/physical_memory");
        let processors = report_text_at(report, "/SPHardwareDataType/0/number_processors");
        let gpu_cores = report_text_at(report, "/SPDisplaysDataType/0/sppci_cores");
        SocInfo::from_profile(
            as_opt_str(&chip),
            as_opt_str(&model),
            as_opt_str(&memory),
            as_opt_str(&processors),
            as_opt_str(&gpu_cores),
            blobs,
        )
    }
}
} // verus!
