//! Run configuration: target dimensions and validated parameters.
//!
//! The tool takes a style glob, an input glob, and optional width and
//! height flags. Validation happens before any file is touched, in the
//! same order as the checks of the command line: width, height, style
//! glob, input glob. The first failure is fatal.

use vstd::prelude::*;
use crate::numeral::{digits_val, is_u32_numeral, u32_numeral_value, parse_u32};
use crate::pattern::{glob_pattern_valid, pattern_is_valid};

verus! {

/// Width and height every input image is resized to.
pub const DEFAULT_DIMENSION: u32 = 100;

/// Guide-alpha weight handed to the synthesis engine, in percent: style
/// fidelity is balanced against structural guidance at a fixed 80%.
pub const GUIDE_ALPHA_PERCENT: u32 = 80;

/// Target dimensions of every output image.
#[derive(Clone, Copy, Debug, PartialEq, Eq, Structural)]
pub struct Dims {
    pub width: u32,
    pub height: u32,
}

/// The configuration errors, each fatal before any processing starts.
#[derive(Clone, Copy, Debug, PartialEq, Eq, Structural)]
pub enum ConfigError {
    /// The width flag does not parse as a 32-bit decimal numeral.
    InvalidWidth,
    /// The height flag does not parse as a 32-bit decimal numeral.
    InvalidHeight,
    /// The style glob is not a well-formed pattern.
    InvalidStyleGlob,
    /// The input glob is not a well-formed pattern.
    InvalidInputGlob,
}

/// An optional dimension argument, as a sequence of characters.
pub open spec fn opt_view(o: Option<&str>) -> Option<Seq<char>> {
    match o {
        Some(s) => Some(s@),
        None => None,
    }
}

/// A dimension argument is acceptable when absent or a 32-bit numeral.
pub open spec fn dim_arg_ok(a: Option<Seq<char>>) -> bool {
    match a {
        Some(s) => is_u32_numeral(s),
        None => true,
    }
}

/// The dimension an argument denotes: its numeral's value, or the default.
pub open spec fn dim_arg_value(a: Option<Seq<char>>) -> int {
    match a {
        Some(s) => u32_numeral_value(s),
        None => DEFAULT_DIMENSION as int,
    }
}

/// The outcome of validating a run's parameters in command-line order.
pub open spec fn validation_of(
    style_glob: Seq<char>,
    input_glob: Seq<char>,
    width_arg: Option<Seq<char>>,
    height_arg: Option<Seq<char>>,
) -> Result<Dims, ConfigError> {
    if !dim_arg_ok(width_arg) {
        Err(ConfigError::InvalidWidth)
    } else if !dim_arg_ok(height_arg) {
        Err(ConfigError::InvalidHeight)
    } else if !glob_pattern_valid(style_glob) {
        Err(ConfigError::InvalidStyleGlob)
    } else if !glob_pattern_valid(input_glob) {
        Err(ConfigError::InvalidInputGlob)
    } else {
        Ok(Dims {
            width: dim_arg_value(width_arg) as u32,
            height: dim_arg_value(height_arg) as u32,
        })
    }
}

/// Validate a run's parameters: parse the optional width and height flags
/// (defaulting each to 100) and check both glob patterns, reporting the
/// first failure in command-line order.
pub fn validate_run(
    style_glob: &str,
    input_glob: &str,
    width_arg: Option<&str>,
    height_arg: Option<&str>,
) -> (r: Result<Dims, ConfigError>)
    ensures
        r == validation_of(style_glob@, input_glob@, opt_view(width_arg), opt_view(height_arg)),
{
    let width: u32 = match width_arg {
        Some(w) => match parse_u32(w) {
            Some(v) => v,
            None => {
                return Err(ConfigError::InvalidWidth);
            },
        },
        None => DEFAULT_DIMENSION,
    };
    let height: u32 = match height_arg {
        Some(h) => match parse_u32(h) {
            Some(v) => v,
            None => {
                return Err(ConfigError::InvalidHeight);
            },
        },
        None => DEFAULT_DIMENSION,
    };
    if !pattern_is_valid(style_glob) {
        return Err(ConfigError::InvalidStyleGlob);
    }
    if !pattern_is_valid(input_glob) {
        return Err(ConfigError::InvalidInputGlob);
    }
    Ok(Dims { width, height })
}

/// Omitting the width and height flags is the same as passing `100` for
/// both: validation yields identical dimensions either way.
pub proof fn lemma_default_dims(style_glob: Seq<char>, input_glob: Seq<char>)
    ensures
        validation_of(style_glob, input_glob, None, None) == validation_of(
            style_glob,
            input_glob,
            Some("100"@),
            Some("100"@),
        ),
{
    reveal_strlit("100");
    let s = "100"@;
    assert(s.len() == 3);
    assert(s[0] == '1' && s[1] == '0' && s[2] == '0');
    assert(crate::numeral::numeral_body(s) == s);
    let s2 = s.drop_last();
    let s1 = s2.drop_last();
    let s0 = s1.drop_last();
    assert(s0.len() == 0);
    assert(digits_val(s0) == 0);
    assert('1' as int == 49 && '0' as int == 48);
    assert(s1.len() == 1 && s1[0] == '1');
    assert(s1.last() == '1');
    assert(s2.len() == 2 && s2[0] == '1' && s2[1] == '0');
    assert(digits_val(s1) == 1);
    assert(digits_val(s2) == 10);
    assert(digits_val(s) == 100);
    assert(is_u32_numeral(s));
    assert(u32_numeral_value(s) == 100);
}

} // verus!
