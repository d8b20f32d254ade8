use vstd::prelude::*;

verus! {

/// The six pull pools. Each is an independent sequence of pulls.
#[derive(Debug, Clone, Copy, PartialEq, Eq, Structural)]
pub enum GachaType {
    RegularWarp,
    StarterWarp,
    CharacterEventWarp,
    CharacterCollaborationWarp,
    LightConeEventWarp,
    LightConeCollaborationWarp,
}

/// The numeric code of a pool, as the remote service and the interchange formats write it.
pub open spec fn code_of(t: GachaType) -> u8 {
    match t {
        GachaType::RegularWarp => 1,
        GachaType::StarterWarp => 2,
        GachaType::CharacterEventWarp => 11,
        GachaType::CharacterCollaborationWarp => 21,
        GachaType::LightConeEventWarp => 12,
        GachaType::LightConeCollaborationWarp => 22,
    }
}

/// The pool with a given code, if any.
pub open spec fn type_of_code(c: u8) -> Option<GachaType> {
    if c == 1 {
        Some(GachaType::RegularWarp)
    } else if c == 2 {
        Some(GachaType::StarterWarp)
    } else if c == 11 {
        Some(GachaType::CharacterEventWarp)
    } else if c == 21 {
        Some(GachaType::CharacterCollaborationWarp)
    } else if c == 12 {
        Some(GachaType::LightConeEventWarp)
    } else if c == 22 {
        Some(GachaType::LightConeCollaborationWarp)
    } else {
        None
    }
}

/// The order in which pools are fetched, analysed and shown.
pub open spec fn pool_order() -> Seq<GachaType> {
    seq![
        GachaType::CharacterEventWarp,
        GachaType::LightConeEventWarp,
        GachaType::RegularWarp,
        GachaType::CharacterCollaborationWarp,
        GachaType::LightConeCollaborationWarp,
        GachaType::StarterWarp,
    ]
}

/// The codes of the pools, in `pool_order`.
pub open spec fn pool_codes() -> Seq<u8> {
    seq![11u8, 12u8, 1u8, 21u8, 22u8, 2u8]
}

impl GachaType {
    pub fn code(&self) -> (r: u8)
        ensures
            r == code_of(*self),
    {
        match self {
            GachaType::RegularWarp => 1,
            GachaType::StarterWarp => 2,
            GachaType::CharacterEventWarp => 11,
            GachaType::CharacterCollaborationWarp => 21,
            GachaType::LightConeEventWarp => 12,
            GachaType::LightConeCollaborationWarp => 22,
        }
    }

    /// The pool code as query-parameter text.
    pub fn as_str(&self) -> (r: &'static str)
        ensures
            code_of(*self) < 10 ==> r@ == seq![(('0' as u8) + code_of(*self)) as char],
            code_of(*self) >= 10 ==> r@ == seq![
                (('0' as u8) + code_of(*self) / 10) as char,
                (('0' as u8) + code_of(*self) % 10) as char,
            ],
    {
        match self {
            GachaType::RegularWarp => {
                proof { reveal_strlit("1"); }
                "1"
            },
            GachaType::StarterWarp => {
                proof { reveal_strlit("2"); }
                "2"
            },
            GachaType::CharacterEventWarp => {
                proof { reveal_strlit("11"); }
                "11"
            },
            GachaType::LightConeEventWarp => {
                proof { reveal_strlit("12"); }
                "12"
            },
            GachaType::CharacterCollaborationWarp => {
                proof { reveal_strlit("21"); }
                "21"
            },
            GachaType::LightConeCollaborationWarp => {
                proof { reveal_strlit("22"); }
                "22"
            },
        }
    }

    /// All pools, in the order in which they are fetched and shown.
    pub fn as_array() -> (r: [GachaType; 6])
        ensures
            r@ == pool_order(),
    {
        let r = [
            GachaType::CharacterEventWarp,
            GachaType::LightConeEventWarp,
            GachaType::RegularWarp,
            GachaType::CharacterCollaborationWarp,
            GachaType::LightConeCollaborationWarp,
            GachaType::StarterWarp,
        ];
        assert(r@ =~= pool_order());
        r
    }

    /// The pool with a given code, if any.
    pub fn from_code(c: u8) -> (r: Option<GachaType>)
        ensures
            r == type_of_code(c),
            r matches Some(t) ==> code_of(t) == c,
    {
        if c == 1 {
            Some(GachaType::RegularWarp)
        } else if c == 2 {
            Some(GachaType::StarterWarp)
        } else if c == 11 {
            Some(GachaType::CharacterEventWarp)
        } else if c == 21 {
            Some(GachaType::CharacterCollaborationWarp)
        } else if c == 12 {
            Some(GachaType::LightConeEventWarp)
        } else if c == 22 {
            Some(GachaType::LightConeCollaborationWarp)
        } else {
            None
        }
    }

    /// The pool's identifier name.
    pub fn name(&self) -> (r: &'static str)
        ensures
            r@ == pool_name(*self),
    {
        match self {
            GachaType::RegularWarp => {
                proof { reveal_strlit("RegularWarp"); }
                "RegularWarp"
            },
            GachaType::StarterWarp => {
                proof { reveal_strlit("StarterWarp"); }
                "StarterWarp"
            },
            GachaType::CharacterEventWarp => {
                proof { reveal_strlit("CharacterEventWarp"); }
                "CharacterEventWarp"
            },
            GachaType::LightConeEventWarp => {
                proof { reveal_strlit("LightConeEventWarp"); }
                "LightConeEventWarp"
            },
            GachaType::CharacterCollaborationWarp => {
                proof { reveal_strlit("CharacterCollaborationWarp"); }
                "CharacterCollaborationWarp"
            },
            GachaType::LightConeCollaborationWarp => {
                proof { reveal_strlit("LightConeCollaborationWarp"); }
                "LightConeCollaborationWarp"
            },
        }
    }
}

/// The identifier name of a pool.
pub open spec fn pool_name(t: GachaType) -> Seq<char> {
    match t {
        GachaType::RegularWarp => "RegularWarp"@,
        GachaType::StarterWarp => "StarterWarp"@,
        GachaType::CharacterEventWarp => "CharacterEventWarp"@,
        GachaType::CharacterCollaborationWarp => "CharacterCollaborationWarp"@,
        GachaType::LightConeEventWarp => "LightConeEventWarp"@,
        GachaType::LightConeCollaborationWarp => "LightConeCollaborationWarp"@,
    }
}

/// The kind of a catalogue item.
#[derive(Debug, Clone, Copy, PartialEq, Eq, Structural)]
pub enum GachaItemType {
    Character,
    LightCone,
}

/// The text of an item kind as stored in the catalogue.
pub open spec fn item_type_text(t: GachaItemType) -> Seq<char> {
    match t {
        GachaItemType::Character => "character"@,
        GachaItemType::LightCone => "lightcone"@,
    }
}

impl GachaItemType {
    pub fn as_str(&self) -> (r: &'static str)
        ensures
            r@ == item_type_text(*self),
    {
        match self {
            GachaItemType::Character => "character",
            GachaItemType::LightCone => "lightcone",
        }
    }

    /// Reads a catalogue item kind; only the two texts of `as_str` are accepted.
    pub fn from_str(s: &str) -> (r: GachaItemType)
        requires
            s@ == "character"@ || s@ == "lightcone"@,
        ensures
            item_type_text(r) == s@,
    {
        proof {
            reveal_strlit("character");
            reveal_strlit("lightcone");
        }
        if crate::text::str_equals(s, "character") {
            GachaItemType::Character
        } else {
            GachaItemType::LightCone
        }
    }
}

/// The item kind as the remote catalogue's listing names it.
#[derive(Debug, Clone, Copy, PartialEq, Eq, Structural)]
pub enum MetadataItemType {
    Character,
    LightCone,
}

impl MetadataItemType {
    pub fn as_str(&self) -> (r: &'static str)
        ensures
            *self == MetadataItemType::Character ==> r@ == "avatar"@,
            *self == MetadataItemType::LightCone ==> r@ == "equipment"@,
    {
        match self {
            MetadataItemType::Character => "avatar",
            MetadataItemType::LightCone => "equipment",
        }
    }
}

} // verus!
