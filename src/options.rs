use vstd::prelude::*;
use vstd::string::StrSliceExecFns;

use crate::mapping::names_view;

verus! {

/// Settings taken from the command line.
pub struct Options {
    /// Path of the fragment shader to run.
    pub shader_path: String,
    /// Overrides the detected surface size.
    pub resolution: Option<(u32, u32)>,
    /// Selects the display to go full screen on.
    pub fullscreen_display: Option<usize>,
    /// Configuration file holding the controller mappings.
    pub config_path: Option<String>,
}

/// Why the command line was refused.
#[derive(Debug, Clone, Copy, PartialEq, Eq, Structural)]
pub enum OptionsError {
    InvalidWidth,
    InvalidHeight,
    InvalidFullscreen,
    MissingHeight,
    MissingWidth,
    NoFile,
}

impl OptionsError {
    /// A sentence for the operator.
    pub fn description(&self) -> (r: &'static str)
        ensures
            r@ == match self {
                OptionsError::InvalidWidth => "Invalid -w/--width"@,
                OptionsError::InvalidHeight => "Invalid -h/--height"@,
                OptionsError::InvalidFullscreen => "Invalid -f/--fullscreen"@,
                OptionsError::MissingHeight => "No -h/--height specified"@,
                OptionsError::MissingWidth => "No -w/--width specified"@,
                OptionsError::NoFile => "No file specified"@,
            },
    {
        match self {
            OptionsError::InvalidWidth => "Invalid -w/--width",
            OptionsError::InvalidHeight => "Invalid -h/--height",
            OptionsError::InvalidFullscreen => "Invalid -f/--fullscreen",
            OptionsError::MissingHeight => "No -h/--height specified",
            OptionsError::MissingWidth => "No -w/--width specified",
            OptionsError::NoFile => "No file specified",
        }
    }
}

pub open spec fn is_digit(c: char) -> bool {
    '0' <= c && c <= '9'
}

/// Value of a string of decimal digits.
pub open spec fn digits_value(d: Seq<char>) -> nat
    decreases d.len(),
{
    if d.len() == 0 {
        0
    } else {
        digits_value(d.drop_last()) * 10 + (d.last() as nat - '0' as nat) as nat
    }
}

/// The digits of an unsigned number: the text after an optional leading `+`.
pub open spec fn digits_of(s: Seq<char>) -> Seq<char> {
    if s.len() > 0 && s[0] == '+' {
        s.subrange(1, s.len() as int)
    } else {
        s
    }
}

/// `s` reads as an unsigned decimal number no larger than `max`: an
/// optional `+` followed by one or more digits and nothing else.
pub open spec fn decimal_fits(s: Seq<char>, max: nat) -> bool {
    let d = digits_of(s);
    &&& d.len() > 0
    &&& forall|i: int| 0 <= i < d.len() ==> is_digit(#[trigger] d[i])
    &&& digits_value(d) <= max
}

/// Reads `s` as an unsigned decimal number no larger than `max`.
pub fn parse_decimal(s: &str, max: u64) -> (r: Option<u64>)
    ensures
        r is Some <==> decimal_fits(s@, max as nat),
        r matches Some(v) ==> v == digits_value(digits_of(s@)),
{
    let n = s.unicode_len();
    let mut start: usize = 0;
    if n > 0 && s.get_char(0) == '+' {
        start = 1;
    }
    let ghost d = digits_of(s@);
    assert(d =~= s@.subrange(start as int, n as int));
    if start == n {
        return None;
    }
    let mut acc: u64 = 0;
    let mut over = false;
    let mut i: usize = start;
    while i < n
        invariant
            start <= i <= n,
            n == s@.len(),
            d == s@.subrange(start as int, n as int),
            d == digits_of(s@),
            forall|j: int| 0 <= j < i - start ==> is_digit(#[trigger] d[j]),
            !over ==> acc == digits_value(d.take(i - start)) && acc <= max,
            over ==> digits_value(d.take(i - start)) > max,
        decreases n - i,
    {
        let c = s.get_char(i);
        if !('0' <= c && c <= '9') {
            assert(!is_digit(d[i - start]));
            return None;
        }
        let ghost k = i - start;
        assert(d.take(k + 1).drop_last() =~= d.take(k));
        assert(d.take(k + 1).last() == c);
        let dig = (c as u32 - '0' as u32) as u64;
        if over {
            assert(digits_value(d.take(k + 1)) >= digits_value(d.take(k))) by (nonlinear_arith)
                requires
                    digits_value(d.take(k + 1)) == digits_value(d.take(k)) * 10 + dig,
            ;
        } else if dig > max || acc > (max - dig) / 10 {
            over = true;
            assert(digits_value(d.take(k + 1)) > max) by (nonlinear_arith)
                requires
                    digits_value(d.take(k + 1)) == acc * 10 + dig,
                    dig > max || acc > (max - dig) / 10,
                    acc >= 0,
            ;
        } else {
            assert(acc * 10 + dig <= max) by (nonlinear_arith)
                requires
                    dig <= max,
                    acc <= (max - dig) / 10,
            ;
            acc = acc * 10 + dig;
        }
        i = i + 1;
    }
    assert(d.take(n - start) =~= d);
    if over {
        None
    } else {
        Some(acc)
    }
}

/// Text of an optional argument.
pub open spec fn opt_view(o: Option<String>) -> Option<Seq<char>> {
    match o {
        Some(s) => Some(s@),
        None => None,
    }
}

/// The resolution that width and height arguments give: both or neither
/// must be present, and each must read as a `u32`.
pub open spec fn spec_resolution(width: Option<Seq<char>>, height: Option<Seq<char>>) -> Result<
    Option<(u32, u32)>,
    OptionsError,
> {
    match (width, height) {
        (Some(w), Some(h)) => {
            if !decimal_fits(w, u32::MAX as nat) {
                Err(OptionsError::InvalidWidth)
            } else if !decimal_fits(h, u32::MAX as nat) {
                Err(OptionsError::InvalidHeight)
            } else {
                Ok(Some((digits_value(digits_of(w)) as u32, digits_value(digits_of(h)) as u32)))
            }
        },
        (Some(_), None) => Err(OptionsError::MissingHeight),
        (None, Some(_)) => Err(OptionsError::MissingWidth),
        (None, None) => Ok(None),
    }
}

/// The display index that a full-screen argument gives.
pub open spec fn spec_fullscreen(fullscreen: Option<Seq<char>>) -> Result<Option<usize>, OptionsError> {
    match fullscreen {
        Some(f) => if decimal_fits(f, usize::MAX as nat) {
            Ok(Some(digits_value(digits_of(f)) as usize))
        } else {
            Err(OptionsError::InvalidFullscreen)
        },
        None => Ok(None),
    }
}

/// Resolution, display index and shader path that the arguments give, or
/// the first problem found: resolution, then display, then the path, which
/// is the first free argument.
pub open spec fn spec_options(
    width: Option<Seq<char>>,
    height: Option<Seq<char>>,
    fullscreen: Option<Seq<char>>,
    free: Seq<Seq<char>>,
) -> Result<(Option<(u32, u32)>, Option<usize>, Seq<char>), OptionsError> {
    match spec_resolution(width, height) {
        Err(e) => Err(e),
        Ok(res) => match spec_fullscreen(fullscreen) {
            Err(e) => Err(e),
            Ok(fs) => if free.len() == 0 {
                Err(OptionsError::NoFile)
            } else {
                Ok((res, fs, free[0]))
            },
        },
    }
}

/// Turns the values of the parsed command-line options into settings.
/// `free` holds the arguments that belong to no option.
pub fn resolve_options(
    width: Option<String>,
    height: Option<String>,
    fullscreen: Option<String>,
    config_path: Option<String>,
    free: &Vec<String>,
) -> (r: Result<Options, OptionsError>)
    ensures
        match spec_options(opt_view(width), opt_view(height), opt_view(fullscreen), names_view(free@)) {
            Ok((res, fs, path)) => {
                &&& r matches Ok(o)
                &&& o.resolution == res
                &&& o.fullscreen_display == fs
                &&& o.shader_path@ == path
                &&& o.config_path == config_path
            },
            Err(e) => r == Err::<Options, OptionsError>(e),
        },
{
    let resolution = match (width, height) {
        (Some(w), Some(h)) => {
            let wv = match parse_decimal(w.as_str(), 0xffff_ffff) {
                Some(v) => v,
                None => {
                    return Err(OptionsError::InvalidWidth);
                },
            };
            let hv = match parse_decimal(h.as_str(), 0xffff_ffff) {
                Some(v) => v,
                None => {
                    return Err(OptionsError::InvalidHeight);
                },
            };
            Some((wv as u32, hv as u32))
        },
        (Some(_), None) => {
            return Err(OptionsError::MissingHeight);
        },
        (None, Some(_)) => {
            return Err(OptionsError::MissingWidth);
        },
        (None, None) => None,
    };
    let fullscreen_display = match fullscreen {
        Some(f) => match parse_decimal(f.as_str(), usize::MAX as u64) {
            Some(v) => Some(v as usize),
            None => {
                return Err(OptionsError::InvalidFullscreen);
            },
        },
        None => None,
    };
    if free.len() == 0 {
        return Err(OptionsError::NoFile);
    }
    Ok(
        Options {
            shader_path: free[0].clone(),
            resolution,
            fullscreen_display,
            config_path,
        },
    )
}

} // verus!
