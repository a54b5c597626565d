//! What is settled before a render begins: which attractor is drawn, and the
//! reasons for refusing a render.

use vstd::prelude::*;

verus! {

/// The version of this library.
pub const VERSION: &'static str = "2.0.1";

/// Why a render was refused before it began.
#[derive(Debug, Clone, Copy, PartialEq, Eq, Structural)]
pub enum ConfigError {
    /// The attractor is neither `clifford` nor `dejong`.
    UnknownAttractor,
    /// The grid has a negative number of pixels, or more than memory can
    /// address.
    InvalidDimensions,
    /// The render was cut into no passes at all.
    NoLoops,
    /// The redraw interval is 0.
    NoDrawInterval,
}

/// The two point maps.
#[derive(Debug, Clone, Copy, PartialEq, Eq, Structural)]
pub enum AttractorKind {
    Clifford,
    DeJong,
}

/// The attractor that `name` stands for, if any. Names are matched exactly.
pub open spec fn kind_named(name: Seq<char>) -> Option<AttractorKind> {
    if name == "clifford"@ {
        Some(AttractorKind::Clifford)
    } else if name == "dejong"@ {
        Some(AttractorKind::DeJong)
    } else {
        None
    }
}

/// Finds the attractor a host asked for by name; any name but `clifford` and
/// `dejong` is refused.
pub fn parse_attractor_kind(name: &str) -> (kind: Result<AttractorKind, ConfigError>)
    ensures
        kind == match kind_named(name@) {
            Some(found) => Ok::<AttractorKind, ConfigError>(found),
            None => Err::<AttractorKind, ConfigError>(ConfigError::UnknownAttractor),
        },
{
    let asked: String = name.to_owned();
    let clifford: String = "clifford".to_owned();
    let dejong: String = "dejong".to_owned();
    if asked == clifford {
        Ok(AttractorKind::Clifford)
    } else if asked == dejong {
        Ok(AttractorKind::DeJong)
    } else {
        Err(ConfigError::UnknownAttractor)
    }
}

/// The version of this library, as text.
pub fn get_build_number() -> (version: String)
    ensures
        version@ == "2.0.1"@,
        version@ == VERSION@,
{
    VERSION.to_owned()
}

} // verus!
