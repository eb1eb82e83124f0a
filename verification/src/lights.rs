//! The kinds of light source a scene can hold, and their names.
use vstd::prelude::*;

verus! {

/// The kind of a light source.
#[derive(Debug, Clone, Copy, PartialEq, Eq, Structural)]
pub enum LightKind {
    Point,
    Area,
    Distant,
    InfiniteArea,
}

/// The name under which a light kind is reported.
pub open spec fn light_kind_name(k: LightKind) -> Seq<char> {
    match k {
        LightKind::Point => "point"@,
        LightKind::Area => "area"@,
        LightKind::Distant => "distant"@,
        LightKind::InfiniteArea => "infinite_area"@,
    }
}

impl LightKind {
    /// The name of the light kind.
    pub fn to_string(&self) -> (s: String)
        ensures
            s@ == light_kind_name(*self),
    {
        match self {
            LightKind::Point => "point".to_owned(),
            LightKind::Area => "area".to_owned(),
            LightKind::Distant => "distant".to_owned(),
            LightKind::InfiniteArea => "infinite_area".to_owned(),
        }
    }
}

} // verus!
