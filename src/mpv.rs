use vstd::prelude::*;
use crate::text::str_eq;

verus! {

/// The player properties the plugin observes, each under a fixed numeric id.
#[derive(Debug, Clone, Copy, PartialEq, Eq, Structural)]
pub enum ObservedPropID {
    Pause,
    Fullscreen,
    Playlist,
    Volume,
    TimePos,
    CoreIdle,
}

/// Why a value names no observed property.
#[derive(Debug, Clone, Copy, PartialEq, Eq, Structural)]
pub enum PropError {
    InvalidId(u64),
    BadName,
}

/// The property observed under numeric id `v`.
pub open spec fn prop_of_id(v: u64) -> Option<ObservedPropID> {
    if v == 1 {
        Some(ObservedPropID::Pause)
    } else if v == 2 {
        Some(ObservedPropID::Fullscreen)
    } else if v == 3 {
        Some(ObservedPropID::Playlist)
    } else if v == 4 {
        Some(ObservedPropID::Volume)
    } else if v == 5 {
        Some(ObservedPropID::TimePos)
    } else if v == 6 {
        Some(ObservedPropID::CoreIdle)
    } else {
        None
    }
}

/// The property named `s`.
pub open spec fn prop_of_name(s: Seq<char>) -> Option<ObservedPropID> {
    if s == "pause"@ {
        Some(ObservedPropID::Pause)
    } else if s == "fullscreen"@ {
        Some(ObservedPropID::Fullscreen)
    } else if s == "playlist"@ {
        Some(ObservedPropID::Playlist)
    } else if s == "ao-volume"@ {
        Some(ObservedPropID::Volume)
    } else if s == "time-pos"@ {
        Some(ObservedPropID::TimePos)
    } else if s == "core-idle"@ {
        Some(ObservedPropID::CoreIdle)
    } else {
        None
    }
}

impl ObservedPropID {
    pub open spec fn spec_id(self) -> u64 {
        match self {
            ObservedPropID::Pause => 1,
            ObservedPropID::Fullscreen => 2,
            ObservedPropID::Playlist => 3,
            ObservedPropID::Volume => 4,
            ObservedPropID::TimePos => 5,
            ObservedPropID::CoreIdle => 6,
        }
    }

    pub open spec fn spec_name(self) -> Seq<char> {
        match self {
            ObservedPropID::Pause => "pause"@,
            ObservedPropID::Fullscreen => "fullscreen"@,
            ObservedPropID::Playlist => "playlist"@,
            ObservedPropID::Volume => "ao-volume"@,
            ObservedPropID::TimePos => "time-pos"@,
            ObservedPropID::CoreIdle => "core-idle"@,
        }
    }

    /// The numeric id the property is observed under.
    pub fn id(&self) -> (r: u64)
        ensures
            r == self.spec_id(),
    {
        match self {
            ObservedPropID::Pause => 1,
            ObservedPropID::Fullscreen => 2,
            ObservedPropID::Playlist => 3,
            ObservedPropID::Volume => 4,
            ObservedPropID::TimePos => 5,
            ObservedPropID::CoreIdle => 6,
        }
    }

    /// The player's name for the property.
    pub fn name(&self) -> (r: &'static str)
        ensures
            r@ == self.spec_name(),
    {
        match self {
            ObservedPropID::Pause => "pause",
            ObservedPropID::Fullscreen => "fullscreen",
            ObservedPropID::Playlist => "playlist",
            ObservedPropID::Volume => "ao-volume",
            ObservedPropID::TimePos => "time-pos",
            ObservedPropID::CoreIdle => "core-idle",
        }
    }

    /// The player's name for the property, owned.
    pub fn to_string(&self) -> (r: String)
        ensures
            r@ == self.spec_name(),
    {
        self.name().to_owned()
    }

    /// The properties observed when the plugin starts, in order; the volume is observed later,
    /// once audio is loaded.
    pub fn startup_set() -> (r: Vec<ObservedPropID>)
        ensures
            r@ == seq![
                ObservedPropID::Pause,
                ObservedPropID::Fullscreen,
                ObservedPropID::Playlist,
                ObservedPropID::CoreIdle,
            ],
    {
        let mut v: Vec<ObservedPropID> = Vec::new();
        v.push(ObservedPropID::Pause);
        v.push(ObservedPropID::Fullscreen);
        v.push(ObservedPropID::Playlist);
        v.push(ObservedPropID::CoreIdle);
        assert(v@ =~= seq![
            ObservedPropID::Pause,
            ObservedPropID::Fullscreen,
            ObservedPropID::Playlist,
            ObservedPropID::CoreIdle,
        ]);
        v
    }
}

impl TryFrom<u64> for ObservedPropID {
    type Error = PropError;

    fn try_from(value: u64) -> (r: Result<ObservedPropID, PropError>) {
        if value == 1 {
            Ok(ObservedPropID::Pause)
        } else if value == 2 {
            Ok(ObservedPropID::Fullscreen)
        } else if value == 3 {
            Ok(ObservedPropID::Playlist)
        } else if value == 4 {
            Ok(ObservedPropID::Volume)
        } else if value == 5 {
            Ok(ObservedPropID::TimePos)
        } else if value == 6 {
            Ok(ObservedPropID::CoreIdle)
        } else {
            Err(PropError::InvalidId(value))
        }
    }
}

impl vstd::std_specs::convert::TryFromSpecImpl<u64> for ObservedPropID {
    open spec fn obeys_try_from_spec() -> bool {
        true
    }

    open spec fn try_from_spec(v: u64) -> Result<ObservedPropID, PropError> {
        match prop_of_id(v) {
            Some(p) => Ok(p),
            None => Err(PropError::InvalidId(v)),
        }
    }
}

impl<'a> TryFrom<&'a str> for ObservedPropID {
    type Error = PropError;

    fn try_from(value: &'a str) -> (r: Result<ObservedPropID, PropError>) {
        if str_eq(value, "pause") {
            Ok(ObservedPropID::Pause)
        } else if str_eq(value, "fullscreen") {
            Ok(ObservedPropID::Fullscreen)
        } else if str_eq(value, "playlist") {
            Ok(ObservedPropID::Playlist)
        } else if str_eq(value, "ao-volume") {
            Ok(ObservedPropID::Volume)
        } else if str_eq(value, "time-pos") {
            Ok(ObservedPropID::TimePos)
        } else if str_eq(value, "core-idle") {
            Ok(ObservedPropID::CoreIdle)
        } else {
            Err(PropError::BadName)
        }
    }
}

impl<'a> vstd::std_specs::convert::TryFromSpecImpl<&'a str> for ObservedPropID {
    open spec fn obeys_try_from_spec() -> bool {
        true
    }

    open spec fn try_from_spec(v: &'a str) -> Result<ObservedPropID, PropError> {
        match prop_of_name(v@) {
            Some(p) => Ok(p),
            None => Err(PropError::BadName),
        }
    }
}

} // verus!
