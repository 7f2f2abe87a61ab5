//! Version compatibility between this client and the backend.
use vstd::prelude::*;
use crate::exit::{error_stop, stop_with, Stop, StopView, BACKEND};
use crate::output::CLI_VERSION;
use crate::text::{digit_char, is_digit, opt_view, parse_number, parsed_number, span_texts, split, split_spans, to_chars};

verus! {

/// The oldest backend API version that this client is known to work with.
pub const MIN_BACKEND_API_VERSION: &'static str = "1.0.0";

/// A text from its first digit on.
pub open spec fn from_first_digit(s: Seq<char>) -> Seq<char>
    decreases s.len(),
{
    if s.len() > 0 && !is_digit(s[0]) {
        from_first_digit(s.drop_first())
    } else {
        s
    }
}

/// The digits that a text starts with.
pub open spec fn leading_digits(s: Seq<char>) -> Seq<char>
    decreases s.len(),
{
    if s.len() > 0 && is_digit(s[0]) {
        seq![s[0]] + leading_digits(s.drop_first())
    } else {
        seq![]
    }
}

/// Major and minor of a version: the numbers before and behind its first point. What
/// stands in front of the digits of the major is skipped, such as a `v`, and so is what
/// follows the digits of either, such as `-rc1`; without a minor it is zero. Without a
/// major there is no version.
pub open spec fn parsed_version(v: Seq<char>) -> Option<(nat, nat)> {
    let pieces = split(v, '.');
    match parsed_number(leading_digits(from_first_digit(pieces[0])), u32::MAX as nat) {
        Some(major) => Some(
            (
                major,
                if pieces.len() > 1 {
                    match parsed_number(leading_digits(pieces[1]), u32::MAX as nat) {
                        Some(minor) => minor,
                        None => 0,
                    }
                } else {
                    0
                },
            ),
        ),
        None => None,
    }
}

pub open spec fn version_view(v: Option<(u32, u32)>) -> Option<(nat, nat)> {
    match v {
        Some((a, b)) => Some((a as nat, b as nat)),
        None => None,
    }
}

fn scan_digits(s: &[char], from: usize, to: usize) -> (r: usize)
    requires
        from <= to <= s@.len(),
    ensures
        from <= r <= to,
        leading_digits(s@.subrange(from as int, to as int)) == s@.subrange(from as int, r as int),
{
    let mut i: usize = from;
    let ghost whole = s@.subrange(from as int, to as int);
    assert(s@.subrange(from as int, from as int) + leading_digits(whole) =~= leading_digits(whole));
    while i < to && digit_char(s[i])
        invariant
            from <= i <= to <= s@.len(),
            whole == s@.subrange(from as int, to as int),
            leading_digits(whole) == s@.subrange(from as int, i as int) + leading_digits(
                s@.subrange(i as int, to as int),
            ),
        decreases to - i,
    {
        proof {
            let rest = s@.subrange(i as int, to as int);
            assert(rest.drop_first() =~= s@.subrange(i + 1, to as int));
            assert(s@.subrange(from as int, i + 1) + leading_digits(s@.subrange(i + 1, to as int))
                =~= s@.subrange(from as int, i as int) + leading_digits(rest));
        }
        i = i + 1;
    }
    proof {
        let rest = s@.subrange(i as int, to as int);
        assert(leading_digits(rest) =~= seq![]);
        assert(leading_digits(whole) =~= s@.subrange(from as int, i as int));
    }
    i
}

/// Reads major and minor of a version such as `1.2.3`.
pub fn parse_major_minor(v: &str) -> (r: Option<(u32, u32)>)
    ensures
        version_view(r) == parsed_version(v@),
{
    let all = to_chars(v);
    let core = all.as_slice();
    let spans = split_spans(core, '.');
    let ghost pieces = span_texts(core@, spans@);
    assert(pieces.len() == spans@.len());
    let (a, b) = spans[0];
    assert(pieces[0] == core@.subrange(a as int, b as int));
    let mut start: usize = a;
    while start < b && !digit_char(core[start])
        invariant
            a <= start <= b <= core@.len(),
            from_first_digit(core@.subrange(a as int, b as int)) == from_first_digit(
                core@.subrange(start as int, b as int),
            ),
        decreases b - start,
    {
        assert(core@.subrange(start as int, b as int).drop_first() =~= core@.subrange(
            start + 1,
            b as int,
        ));
        start = start + 1;
    }
    let end = scan_digits(core, start, b);
    let major: u32 = match parse_number(core, start, end, u32::MAX as u64) {
        Some(n) => n as u32,
        None => {
            return None;
        },
    };
    let minor: u32 = if spans.len() > 1 {
        let (c, d) = spans[1];
        assert(pieces[1] == core@.subrange(c as int, d as int));
        let e = scan_digits(core, c, d);
        match parse_number(core, c, e, u32::MAX as u64) {
            Some(n) => n as u32,
            None => 0,
        }
    } else {
        0
    };
    Some((major, minor))
}

/// How a backend's API version stands to what this client needs.
#[derive(Clone, Copy, Debug, PartialEq, Eq, Structural)]
pub enum Compat {
    Compatible,
    /// Same major, older minor: usable, with a warning.
    MinorSkew,
    /// Another major: responses may be misread.
    MajorMismatch,
    /// One of the versions cannot be read, which is no reason to stop.
    Unknown,
}

pub open spec fn compat_of(backend: Option<(nat, nat)>, min: Option<(nat, nat)>) -> Compat {
    match (backend, min) {
        (Some((major, minor)), Some((min_major, min_minor))) => if major != min_major {
            Compat::MajorMismatch
        } else if minor < min_minor {
            Compat::MinorSkew
        } else {
            Compat::Compatible
        },
        _ => Compat::Unknown,
    }
}

/// How one version stands to the one that is needed.
pub fn compare_versions(backend: Option<(u32, u32)>, min: Option<(u32, u32)>) -> (r: Compat)
    ensures
        r == compat_of(version_view(backend), version_view(min)),
{
    match (backend, min) {
        (Some((major, minor)), Some((min_major, min_minor))) => if major != min_major {
            Compat::MajorMismatch
        } else if minor < min_minor {
            Compat::MinorSkew
        } else {
            Compat::Compatible
        },
        _ => Compat::Unknown,
    }
}

/// How a backend's API version stands to the one that this client needs.
pub open spec fn backend_compat_of(api_version: Seq<char>) -> Compat {
    compat_of(parsed_version(api_version), parsed_version(MIN_BACKEND_API_VERSION@))
}

pub fn backend_compat(api_version: &str) -> (r: Compat)
    ensures
        r == backend_compat_of(api_version@),
{
    compare_versions(parse_major_minor(api_version), parse_major_minor(MIN_BACKEND_API_VERSION))
}

pub open spec fn skew_note(v: Seq<char>) -> Seq<char> {
    "note: backend api "@ + v + " is older than this CLI expects (>= "@ + MIN_BACKEND_API_VERSION@
        + "); some features may be unavailable."@
}

pub open spec fn mismatch_text(v: Seq<char>) -> Seq<char> {
    "incompatible backend api "@ + v + " (CLI requires "@ + MIN_BACKEND_API_VERSION@
        + ", major mismatch). Upgrade the CLI or backend."@
}

/// Whether a run goes on with a response of the given API version: a major mismatch
/// ends it, a minor skew is noted, and a backend that names no version is let be.
pub open spec fn version_gate_of(api_version: Option<Seq<char>>) -> Result<
    Option<Seq<char>>,
    StopView,
> {
    match api_version {
        None => Ok(None),
        Some(v) => match backend_compat_of(v) {
            Compat::MinorSkew => Ok(Some(skew_note(v))),
            Compat::MajorMismatch => Err(error_stop(BACKEND, mismatch_text(v))),
            _ => Ok(None),
        },
    }
}

pub open spec fn note_result(r: Result<Option<String>, Stop>) -> Result<
    Option<Seq<char>>,
    StopView,
> {
    match r {
        Ok(note) => Ok(opt_view(note)),
        Err(s) => Err(s@),
    }
}

pub fn version_gate(api_version: &Option<String>) -> (r: Result<Option<String>, Stop>)
    ensures
        note_result(r) == version_gate_of(opt_view(*api_version)),
{
    match api_version {
        None => Ok(None),
        Some(v) => match backend_compat(v.as_str()) {
            Compat::MinorSkew => {
                let mut note = "note: backend api ".to_owned();
                note.append(v.as_str());
                note.append(" is older than this CLI expects (>= ");
                note.append(MIN_BACKEND_API_VERSION);
                note.append("); some features may be unavailable.");
                Ok(Some(note))
            },
            Compat::MajorMismatch => {
                let mut message = "incompatible backend api ".to_owned();
                message.append(v.as_str());
                message.append(" (CLI requires ");
                message.append(MIN_BACKEND_API_VERSION);
                message.append(", major mismatch). Upgrade the CLI or backend.");
                Err(stop_with(BACKEND, message.as_str()))
            },
            _ => Ok(None),
        },
    }
}

/// Whether version `a` comes before version `b`, as far as both can be read.
pub open spec fn older(a: Option<(nat, nat)>, b: Option<(nat, nat)>) -> bool {
    match (a, b) {
        (Some((x, y)), Some((z, w))) => x < z || (x == z && y < w),
        _ => false,
    }
}

/// The note for a client that is older than the backend supports.
pub open spec fn update_note_of(min_cli_version: Option<Seq<char>>) -> Option<Seq<char>> {
    match min_cli_version {
        Some(min) => if older(parsed_version(CLI_VERSION@), parsed_version(min)) {
            Some(
                "note: this CLI ("@ + CLI_VERSION@ + ") is older than the backend supports (>= "@
                    + min
                    + "). Update with `npm install -g @vericto/vericto-cli` or the shell installer."@,
            )
        } else {
            None
        },
        None => None,
    }
}

/// Suggests an update where this client is older than the backend supports.
pub fn update_note(min_cli_version: &Option<String>) -> (r: Option<String>)
    ensures
        opt_view(r) == update_note_of(opt_view(*min_cli_version)),
{
    match min_cli_version {
        Some(min) => {
            let behind = match (parse_major_minor(CLI_VERSION), parse_major_minor(min.as_str())) {
                (Some((x, y)), Some((z, w))) => x < z || (x == z && y < w),
                _ => false,
            };
            if !behind {
                return None;
            }
            let mut note = "note: this CLI (".to_owned();
            note.append(CLI_VERSION);
            note.append(") is older than the backend supports (>= ");
            note.append(min.as_str());
            note.append(
                "). Update with `npm install -g @vericto/vericto-cli` or the shell installer.",
            );
            Some(note)
        },
        None => None,
    }
}

} // verus!
