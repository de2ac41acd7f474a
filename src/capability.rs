//! Resolution and validation of the target architecture identifier, and of
//! the number of compiler processes that may run at once.

use vstd::prelude::*;
use crate::paths::views_of;
use crate::text::{
    is_usize_text, parse_usize, remove_dots, usize_text_value, without_dots,
};

verus! {

/// Why no architecture identifier could be settled on.
#[derive(Debug, Clone, Copy, PartialEq, Eq, Structural)]
pub enum CapabilityError {
    /// The identifier, once its dots are taken out, is not a number.
    Unparsable,
    /// The device query did not answer with a `compute_cap` header and a value.
    DeviceQueryFormat,
    /// Neither a requested identifier nor a device query answer was available.
    NoDeviceQuery,
    /// The toolchain listed no architecture it can target.
    NoGpuCodes,
    /// The toolchain cannot target this identifier.
    Unsupported { cap: usize },
}

/// The header line of the device query's answer.
pub open spec fn compute_cap_header() -> Seq<char> {
    seq!['c', 'o', 'm', 'p', 'u', 't', 'e', '_', 'c', 'a', 'p']
}

/// The field that marks a real architecture in the toolchain's listing.
pub open spec fn sm_field() -> Seq<char> {
    seq!['s', 'm']
}

/// The identifier written by `s`, a number that may hold dots ("8.6" is 86).
pub open spec fn normalized_cap(s: Seq<char>) -> Result<usize, CapabilityError> {
    let d = without_dots(s);
    if is_usize_text(d) {
        Ok(usize_text_value(d) as usize)
    } else {
        Err(CapabilityError::Unparsable)
    }
}

/// The identifier that the device query's answer gives, line by line.
pub open spec fn device_query_cap(lines: Seq<Seq<char>>) -> Result<usize, CapabilityError> {
    if lines.len() < 2 || lines[0] != compute_cap_header() {
        Err(CapabilityError::DeviceQueryFormat)
    } else {
        normalized_cap(lines[1])
    }
}

/// The code that one line of the toolchain's listing gives, from its
/// `_`-separated fields: the second field, where some field is `sm`.
pub open spec fn code_of_fields(f: Seq<Seq<char>>) -> Option<usize> {
    if f.len() >= 2 && f.contains(sm_field()) && is_usize_text(f[1]) {
        Some(usize_text_value(f[1]) as usize)
    } else {
        None
    }
}

/// The codes of a listing, in the order of its lines.
pub open spec fn listed_codes(lines: Seq<Seq<char>>) -> Seq<usize>
    decreases lines.len(),
{
    if lines.len() == 0 {
        Seq::empty()
    } else {
        let rest = listed_codes(lines.drop_last());
        match code_of_fields(fields_of(lines.last(), '_')) {
            Some(n) => rest.push(n),
            None => rest,
        }
    }
}

/// Whether the toolchain, which lists `codes`, can target `cap`.
pub open spec fn checked_cap(cap: usize, codes: Seq<usize>) -> Result<usize, CapabilityError> {
    if codes.len() == 0 {
        Err(CapabilityError::NoGpuCodes)
    } else if !codes.contains(cap) {
        Err(CapabilityError::Unsupported { cap })
    } else {
        Ok(cap)
    }
}

/// The identifier asked for, or else the one the device query reports.
pub open spec fn requested_cap(
    requested: Option<Seq<char>>,
    device_query: Option<Seq<char>>,
) -> Result<usize, CapabilityError> {
    match requested {
        Some(s) => normalized_cap(s),
        None => match device_query {
            Some(q) => device_query_cap(lines_of(q)),
            None => Err(CapabilityError::NoDeviceQuery),
        },
    }
}

/// The validated identifier for a build.
pub open spec fn resolved_cap(
    requested: Option<Seq<char>>,
    device_query: Option<Seq<char>>,
    listing: Seq<char>,
) -> Result<usize, CapabilityError> {
    match requested_cap(requested, device_query) {
        Ok(cap) => checked_cap(cap, listed_codes(lines_of(listing))),
        Err(e) => Err(e),
    }
}

/// The lines of a text, as `str::lines` splits it.
pub uninterp spec fn lines_of(s: Seq<char>) -> Seq<Seq<char>>;

/// The pieces of a text between the occurrences of a separator, as
/// `str::split` cuts it.
pub uninterp spec fn fields_of(s: Seq<char>, sep: char) -> Seq<Seq<char>>;

/// Relies on str::lines: the lines of the text, without their terminators.
#[verifier::external_body]
fn split_lines(s: &str) -> (r: Vec<String>)
    ensures
        views_of(r@) == lines_of(s@),
{
    s.lines().map(|l| l.to_string()).collect()
}

/// Relies on str::split with a character pattern: the pieces between separators.
#[verifier::external_body]
fn split_fields(s: &str, sep: char) -> (r: Vec<String>)
    ensures
        views_of(r@) == fields_of(s@, sep),
{
    s.split(sep).map(|f| f.to_string()).collect()
}

/// Whether two texts hold the same characters.
pub fn same_text(a: &str, b: &str) -> (r: bool)
    ensures
        r == (a@ == b@),
{
    let n = a.unicode_len();
    if n != b.unicode_len() {
        return false;
    }
    let mut i: usize = 0;
    while i < n
        invariant
            i <= n,
            n == a@.len(),
            n == b@.len(),
            a@.subrange(0, i as int) == b@.subrange(0, i as int),
        decreases n - i,
    {
        if a.get_char(i) != b.get_char(i) {
            return false;
        }
        assert(a@.subrange(0, i + 1) == a@.subrange(0, i as int).push(a@[i as int]));
        assert(b@.subrange(0, i + 1) == b@.subrange(0, i as int).push(b@[i as int]));
        i = i + 1;
    }
    assert(a@.subrange(0, n as int) == a@);
    assert(b@.subrange(0, n as int) == b@);
    true
}

/// Reads an architecture identifier, dropping the dots of a dotted
/// version: "8.6" and "86" both give 86.
pub fn normalize_compute_cap(s: &str) -> (r: Result<usize, CapabilityError>)
    ensures
        r == normalized_cap(s@),
{
    let digits = remove_dots(s);
    match parse_usize(digits.as_str()) {
        Some(n) => Ok(n),
        None => Err(CapabilityError::Unparsable),
    }
}

/// Reads the identifier from the device query's answer, split into lines:
/// a `compute_cap` header, then the value.
pub fn device_query_cap_of_lines(lines: &Vec<String>) -> (r: Result<usize, CapabilityError>)
    ensures
        r == device_query_cap(views_of(lines@)),
{
    let ghost v = views_of(lines@);
    if lines.len() < 2 {
        return Err(CapabilityError::DeviceQueryFormat);
    }
    assert(v[0] == lines@[0]@ && v[1] == lines@[1]@);
    if !same_text(lines[0].as_str(), "compute_cap") {
        proof {
            reveal_strlit("compute_cap");
            assert("compute_cap"@ =~= compute_cap_header());
        }
        return Err(CapabilityError::DeviceQueryFormat);
    }
    proof {
        reveal_strlit("compute_cap");
        assert("compute_cap"@ =~= compute_cap_header());
    }
    normalize_compute_cap(lines[1].as_str())
}

/// Reads the identifier from the device query's whole answer.
pub fn parse_device_query(out: &str) -> (r: Result<usize, CapabilityError>)
    ensures
        r == device_query_cap(lines_of(out@)),
{
    let lines = split_lines(out);
    device_query_cap_of_lines(&lines)
}

/// The code that one line of the toolchain's listing names, given the
/// line's `_`-separated fields ("sm_86" names 86).
pub fn gpu_code_of_fields(fields: &Vec<String>) -> (r: Option<usize>)
    ensures
        r == code_of_fields(views_of(fields@)),
{
    let ghost v = views_of(fields@);
    if fields.len() < 2 {
        return None;
    }
    let mut found = false;
    let mut i: usize = 0;
    while i < fields.len()
        invariant
            i <= fields@.len(),
            v == views_of(fields@),
            found <==> exists|j: int| 0 <= j < i && v[j] == sm_field(),
        decreases fields@.len() - i,
    {
        let hit = same_text(fields[i].as_str(), "sm");
        proof {
            reveal_strlit("sm");
            assert("sm"@ =~= sm_field());
            assert(v[i as int] == fields@[i as int]@);
        }
        if hit {
            found = true;
        }
        i = i + 1;
    }
    assert(found <==> v.contains(sm_field()));
    if !found {
        return None;
    }
    assert(v[1] == fields@[1]@);
    parse_usize(fields[1].as_str())
}

/// Collects the codes that the toolchain's listing of architectures names,
/// in the order of its lines.
pub fn parse_gpu_codes(listing: &str) -> (r: Vec<usize>)
    ensures
        r@ == listed_codes(lines_of(listing@)),
{
    let lines = split_lines(listing);
    let ghost ls = lines_of(listing@);
    let mut codes: Vec<usize> = Vec::new();
    let mut i: usize = 0;
    while i < lines.len()
        invariant
            i <= lines@.len(),
            ls == views_of(lines@),
            codes@ == listed_codes(ls.subrange(0, i as int)),
        decreases lines@.len() - i,
    {
        let fields = split_fields(lines[i].as_str(), '_');
        let code = gpu_code_of_fields(&fields);
        proof {
            let p = ls.subrange(0, i + 1);
            assert(p.drop_last() == ls.subrange(0, i as int));
            assert(p.last() == lines@[i as int]@);
        }
        match code {
            Some(n) => codes.push(n),
            None => {},
        }
        i = i + 1;
    }
    assert(ls.subrange(0, lines@.len() as int) == ls);
    codes
}

/// Accepts `cap` only where the toolchain lists it among the codes it can
/// target; a listed code is never above the highest one listed.
pub fn check_compute_cap(cap: usize, codes: &Vec<usize>) -> (r: Result<usize, CapabilityError>)
    ensures
        r == checked_cap(cap, codes@),
{
    if codes.len() == 0 {
        return Err(CapabilityError::NoGpuCodes);
    }
    let mut i: usize = 0;
    while i < codes.len()
        invariant
            i <= codes@.len(),
            forall|j: int| 0 <= j < i ==> codes@[j] != cap,
        decreases codes@.len() - i,
    {
        if codes[i] == cap {
            assert(codes@.contains(cap));
            return Ok(cap);
        }
        i = i + 1;
    }
    Err(CapabilityError::Unsupported { cap })
}

/// Settles the architecture identifier: the requested one if any, else the
/// one the device query answered; either must be listed by the toolchain.
pub fn resolve_compute_cap(
    requested: Option<&str>,
    device_query: Option<&str>,
    gpu_code_listing: &str,
) -> (r: Result<usize, CapabilityError>)
    ensures
        r == resolved_cap(
            match requested { Some(s) => Some(s@), None => None },
            match device_query { Some(q) => Some(q@), None => None },
            gpu_code_listing@,
        ),
{
    let cap = match requested {
        Some(s) => normalize_compute_cap(s),
        None => match device_query {
            Some(q) => parse_device_query(q),
            None => Err(CapabilityError::NoDeviceQuery),
        },
    };
    match cap {
        Ok(c) => {
            let codes = parse_gpu_codes(gpu_code_listing);
            check_compute_cap(c, &codes)
        },
        Err(e) => Err(e),
    }
}

/// Relies on num_cpus::get_physical: the number of physical cores, never below one.
#[verifier::external_body]
fn physical_cores() -> (r: usize)
    ensures
        r >= 1,
{
    num_cpus::get_physical()
}

/// How many compiler processes may run at once: the requested number when
/// one is given as text, else the number of physical cores.
pub fn resolve_thread_count(requested: Option<&str>) -> (r: Option<usize>)
    ensures
        requested matches Some(s) ==> r == (if is_usize_text(s@) {
            Some(usize_text_value(s@) as usize)
        } else {
            None::<usize>
        }),
        requested is None ==> (r matches Some(n) && n >= 1),
{
    match requested {
        Some(s) => parse_usize(s),
        None => Some(physical_cores()),
    }
}

proof fn lemma_without_dots_idempotent(s: Seq<char>)
    ensures
        without_dots(without_dots(s)) == without_dots(s),
    decreases s.len(),
{
    reveal(Seq::filter);
    if s.len() > 0 {
        lemma_without_dots_idempotent(s.drop_last());
        let f = without_dots(s.drop_last());
        if s.last() != '.' {
            let g = f.push(s.last());
            assert(g.drop_last() == f);
            assert(without_dots(g) == without_dots(f).push(s.last()));
        }
    }
}

/// A dotted version and the same digits without dots name the same
/// identifier: "8.6" and "86" both give 86.
pub proof fn lemma_normalize_ignores_dots(s: Seq<char>)
    ensures
        normalized_cap(s) == normalized_cap(without_dots(s)),
{
    lemma_without_dots_idempotent(s);
}

/// Resolution depends on its inputs alone: resolving twice from the same
/// request, device answer and toolchain listing gives the same identifier.
pub proof fn lemma_resolution_deterministic(
    requested: Option<Seq<char>>,
    device_query: Option<Seq<char>>,
    listing: Seq<char>,
    requested2: Option<Seq<char>>,
    device_query2: Option<Seq<char>>,
    listing2: Seq<char>,
)
    requires
        requested == requested2,
        device_query == device_query2,
        listing == listing2,
    ensures
        resolved_cap(requested, device_query, listing) == resolved_cap(requested2, device_query2, listing2),
{
}

/// A requested identifier takes priority: the device query's answer is then
/// not consulted.
pub proof fn lemma_request_overrides_device(
    requested: Seq<char>,
    device_query: Option<Seq<char>>,
    other_query: Option<Seq<char>>,
    listing: Seq<char>,
)
    ensures
        resolved_cap(Some(requested), device_query, listing) == resolved_cap(Some(requested), other_query, listing),
{
}

} // verus!
