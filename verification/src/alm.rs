use vstd::prelude::*;
use crate::byte_stream::{le16_at, le32_at, read_u16, read_u32, read_exact, skip_bytes};
use crate::errors::DecodeError;
use crate::shared_types::cp866_decoded;
use crate::smacker::{read_padded, spec_padded_slice};

verus! {

#[derive(Copy, Clone, PartialEq, Eq, Structural, Debug)]
pub enum SectionKind {
    General,
    Tiles,
    HeightMap,
    MapObjects,
    Structures,
    Fractions,
    Units,
    Triggers,
    Sacks,
    Effects,
}

pub open spec fn spec_sectionkind_from(n: u32) -> Option<SectionKind> {
    match n {
        0 => Option::Some(SectionKind::General),
        1 => Option::Some(SectionKind::Tiles),
        2 => Option::Some(SectionKind::HeightMap),
        3 => Option::Some(SectionKind::MapObjects),
        4 => Option::Some(SectionKind::Structures),
        5 => Option::Some(SectionKind::Fractions),
        6 => Option::Some(SectionKind::Units),
        7 => Option::Some(SectionKind::Triggers),
        8 => Option::Some(SectionKind::Sacks),
        9 => Option::Some(SectionKind::Effects),
        _ => Option::None,
    }
}

impl SectionKind {
    /// Maps the raw tag to its variant; out-of-range tags are malformed.
    pub fn try_from_primitive(n: u32) -> (r: Result<SectionKind, DecodeError>)
        ensures
            match r {
                Ok(v) => spec_sectionkind_from(n) == Option::Some(v),
                Err(e) => e == DecodeError::InvalidTag && spec_sectionkind_from(n) is None,
            },
    {
        match n {
        0 => Ok(SectionKind::General),
        1 => Ok(SectionKind::Tiles),
        2 => Ok(SectionKind::HeightMap),
        3 => Ok(SectionKind::MapObjects),
        4 => Ok(SectionKind::Structures),
        5 => Ok(SectionKind::Fractions),
        6 => Ok(SectionKind::Units),
        7 => Ok(SectionKind::Triggers),
        8 => Ok(SectionKind::Sacks),
        9 => Ok(SectionKind::Effects),
            _ => Err(DecodeError::InvalidTag),
        }
    }
}

#[derive(Copy, Clone, PartialEq, Eq, Structural, Debug)]
pub enum GeneralCheckType {
    Unknown,
    GroupUnitCount,
    IsUnitInABox,
    IsUnitInACircle,
    GetUnitParameter,
    IsUnitAlive,
    GetDistanceBetweenUnits,
    GetDistanceFromPointToUnit,
    HowManyUnitsFractionHave,
    IsUnitAttacked,
    GetDiplomacy,
    CheckSack,
    GetDistanceToNearestFractionUnit,
    GetDistanceFromPointToUnitWithItem,
    IsItemInSack,
    Vip,
    CheckVariable,
    HowManyStructuresFractionHave,
    GetStructureHealth,
    Teleport,
    CheckScenarioVariable,
    CheckSubObjective,
    SpellInArea,
    SpellOnUnit,
    IsUnitInPoint,
}

pub open spec fn spec_generalchecktype_from(n: u32) -> Option<GeneralCheckType> {
    match n {
        0 => Option::Some(GeneralCheckType::Unknown),
        1 => Option::Some(GeneralCheckType::GroupUnitCount),
        2 => Option::Some(GeneralCheckType::IsUnitInABox),
        3 => Option::Some(GeneralCheckType::IsUnitInACircle),
        4 => Option::Some(GeneralCheckType::GetUnitParameter),
        5 => Option::Some(GeneralCheckType::IsUnitAlive),
        6 => Option::Some(GeneralCheckType::GetDistanceBetweenUnits),
        7 => Option::Some(GeneralCheckType::GetDistanceFromPointToUnit),
        8 => Option::Some(GeneralCheckType::HowManyUnitsFractionHave),
        9 => Option::Some(GeneralCheckType::IsUnitAttacked),
        10 => Option::Some(GeneralCheckType::GetDiplomacy),
        11 => Option::Some(GeneralCheckType::CheckSack),
        12 => Option::Some(GeneralCheckType::GetDistanceToNearestFractionUnit),
        13 => Option::Some(GeneralCheckType::GetDistanceFromPointToUnitWithItem),
        14 => Option::Some(GeneralCheckType::IsItemInSack),
        15 => Option::Some(GeneralCheckType::Vip),
        16 => Option::Some(GeneralCheckType::CheckVariable),
        17 => Option::Some(GeneralCheckType::HowManyStructuresFractionHave),
        18 => Option::Some(GeneralCheckType::GetStructureHealth),
        19 => Option::Some(GeneralCheckType::Teleport),
        20 => Option::Some(GeneralCheckType::CheckScenarioVariable),
        21 => Option::Some(GeneralCheckType::CheckSubObjective),
        22 => Option::Some(GeneralCheckType::SpellInArea),
        23 => Option::Some(GeneralCheckType::SpellOnUnit),
        24 => Option::Some(GeneralCheckType::IsUnitInPoint),
        _ => Option::None,
    }
}

impl GeneralCheckType {
    /// Maps the raw tag to its variant; out-of-range tags are malformed.
    pub fn try_from_primitive(n: u32) -> (r: Result<GeneralCheckType, DecodeError>)
        ensures
            match r {
                Ok(v) => spec_generalchecktype_from(n) == Option::Some(v),
                Err(e) => e == DecodeError::InvalidTag && spec_generalchecktype_from(n) is None,
            },
    {
        match n {
        0 => Ok(GeneralCheckType::Unknown),
        1 => Ok(GeneralCheckType::GroupUnitCount),
        2 => Ok(GeneralCheckType::IsUnitInABox),
        3 => Ok(GeneralCheckType::IsUnitInACircle),
        4 => Ok(GeneralCheckType::GetUnitParameter),
        5 => Ok(GeneralCheckType::IsUnitAlive),
        6 => Ok(GeneralCheckType::GetDistanceBetweenUnits),
        7 => Ok(GeneralCheckType::GetDistanceFromPointToUnit),
        8 => Ok(GeneralCheckType::HowManyUnitsFractionHave),
        9 => Ok(GeneralCheckType::IsUnitAttacked),
        10 => Ok(GeneralCheckType::GetDiplomacy),
        11 => Ok(GeneralCheckType::CheckSack),
        12 => Ok(GeneralCheckType::GetDistanceToNearestFractionUnit),
        13 => Ok(GeneralCheckType::GetDistanceFromPointToUnitWithItem),
        14 => Ok(GeneralCheckType::IsItemInSack),
        15 => Ok(GeneralCheckType::Vip),
        16 => Ok(GeneralCheckType::CheckVariable),
        17 => Ok(GeneralCheckType::HowManyStructuresFractionHave),
        18 => Ok(GeneralCheckType::GetStructureHealth),
        19 => Ok(GeneralCheckType::Teleport),
        20 => Ok(GeneralCheckType::CheckScenarioVariable),
        21 => Ok(GeneralCheckType::CheckSubObjective),
        22 => Ok(GeneralCheckType::SpellInArea),
        23 => Ok(GeneralCheckType::SpellOnUnit),
        24 => Ok(GeneralCheckType::IsUnitInPoint),
            _ => Err(DecodeError::InvalidTag),
        }
    }
}

#[derive(Copy, Clone, PartialEq, Eq, Structural, Debug)]
pub enum ArgumentType {
    Unknown,
    Number,
    Group,
    Fraction,
    Unit,
    X,
    Y,
    Constant,
    Item,
    Structure,
}

pub open spec fn spec_argumenttype_from(n: u32) -> Option<ArgumentType> {
    match n {
        0 => Option::Some(ArgumentType::Unknown),
        1 => Option::Some(ArgumentType::Number),
        2 => Option::Some(ArgumentType::Group),
        3 => Option::Some(ArgumentType::Fraction),
        4 => Option::Some(ArgumentType::Unit),
        5 => Option::Some(ArgumentType::X),
        6 => Option::Some(ArgumentType::Y),
        7 => Option::Some(ArgumentType::Constant),
        8 => Option::Some(ArgumentType::Item),
        9 => Option::Some(ArgumentType::Structure),
        _ => Option::None,
    }
}

impl ArgumentType {
    /// Maps the raw tag to its variant; out-of-range tags are malformed.
    pub fn try_from_primitive(n: u32) -> (r: Result<ArgumentType, DecodeError>)
        ensures
            match r {
                Ok(v) => spec_argumenttype_from(n) == Option::Some(v),
                Err(e) => e == DecodeError::InvalidTag && spec_argumenttype_from(n) is None,
            },
    {
        match n {
        0 => Ok(ArgumentType::Unknown),
        1 => Ok(ArgumentType::Number),
        2 => Ok(ArgumentType::Group),
        3 => Ok(ArgumentType::Fraction),
        4 => Ok(ArgumentType::Unit),
        5 => Ok(ArgumentType::X),
        6 => Ok(ArgumentType::Y),
        7 => Ok(ArgumentType::Constant),
        8 => Ok(ArgumentType::Item),
        9 => Ok(ArgumentType::Structure),
            _ => Err(DecodeError::InvalidTag),
        }
    }
}

#[derive(Copy, Clone, PartialEq, Eq, Structural, Debug)]
pub enum CheckOperator {
    Equals,
    NotEquals,
    GreaterThan,
    LowerThan,
    GreaterThanEquals,
    LowerThanEquals,
}

pub open spec fn spec_checkoperator_from(n: u32) -> Option<CheckOperator> {
    match n {
        0 => Option::Some(CheckOperator::Equals),
        1 => Option::Some(CheckOperator::NotEquals),
        2 => Option::Some(CheckOperator::GreaterThan),
        3 => Option::Some(CheckOperator::LowerThan),
        4 => Option::Some(CheckOperator::GreaterThanEquals),
        5 => Option::Some(CheckOperator::LowerThanEquals),
        _ => Option::None,
    }
}

impl CheckOperator {
    /// Maps the raw tag to its variant; out-of-range tags are malformed.
    pub fn try_from_primitive(n: u32) -> (r: Result<CheckOperator, DecodeError>)
        ensures
            match r {
                Ok(v) => spec_checkoperator_from(n) == Option::Some(v),
                Err(e) => e == DecodeError::InvalidTag && spec_checkoperator_from(n) is None,
            },
    {
        match n {
        0 => Ok(CheckOperator::Equals),
        1 => Ok(CheckOperator::NotEquals),
        2 => Ok(CheckOperator::GreaterThan),
        3 => Ok(CheckOperator::LowerThan),
        4 => Ok(CheckOperator::GreaterThanEquals),
        5 => Ok(CheckOperator::LowerThanEquals),
            _ => Err(DecodeError::InvalidTag),
        }
    }
}

#[derive(Copy, Clone, PartialEq, Eq, Structural, Debug)]
pub enum GeneralInstanceType {
    Unknown,
    IncrementMissionStage,
    SendMessage,
    SetVariableValue,
    ForceMissionComplete,
    ForceMissionFailed,
    Command,
    KeepFormation,
    IncrementVariable,
    SetDiplomacy,
    GiveItem,
    AddItemInUnitsSack,
    RemoveItemFromUnitsSack,
    HideUnit,
    ShowUnit,
    MetamorphUnit,
    ChangeUnitsOwner,
    DropAll,
    MagicOnArea,
    ChangeGroupsOwner,
    GiveMoneyToFraction,
    MagicOnUnit,
    CreateMagicTrigger,
    SetStructureHealth,
    MoveUnitImmediate,
    GiveAllItemsFromUnitToUnit,
    TimedSpellOnGround,
    ChangeRespawnTime,
    HideGroup,
    ShowGroup,
    SetUnitsParameter,
    SetScenarioVariable,
    SetSubObjective,
    SetMusicOrder,
    RemoveItemFromAll,
    StopGroup,
}

pub open spec fn spec_generalinstancetype_from(n: u32) -> Option<GeneralInstanceType> {
    match n {
        0 => Option::Some(GeneralInstanceType::Unknown),
        1 => Option::Some(GeneralInstanceType::IncrementMissionStage),
        2 => Option::Some(GeneralInstanceType::SendMessage),
        3 => Option::Some(GeneralInstanceType::SetVariableValue),
        4 => Option::Some(GeneralInstanceType::ForceMissionComplete),
        5 => Option::Some(GeneralInstanceType::ForceMissionFailed),
        6 => Option::Some(GeneralInstanceType::Command),
        7 => Option::Some(GeneralInstanceType::KeepFormation),
        8 => Option::Some(GeneralInstanceType::IncrementVariable),
        9 => Option::Some(GeneralInstanceType::SetDiplomacy),
        10 => Option::Some(GeneralInstanceType::GiveItem),
        11 => Option::Some(GeneralInstanceType::AddItemInUnitsSack),
        12 => Option::Some(GeneralInstanceType::RemoveItemFromUnitsSack),
        13 => Option::Some(GeneralInstanceType::HideUnit),
        14 => Option::Some(GeneralInstanceType::ShowUnit),
        15 => Option::Some(GeneralInstanceType::MetamorphUnit),
        16 => Option::Some(GeneralInstanceType::ChangeUnitsOwner),
        17 => Option::Some(GeneralInstanceType::DropAll),
        18 => Option::Some(GeneralInstanceType::MagicOnArea),
        19 => Option::Some(GeneralInstanceType::ChangeGroupsOwner),
        20 => Option::Some(GeneralInstanceType::GiveMoneyToFraction),
        21 => Option::Some(GeneralInstanceType::MagicOnUnit),
        22 => Option::Some(GeneralInstanceType::CreateMagicTrigger),
        23 => Option::Some(GeneralInstanceType::SetStructureHealth),
        24 => Option::Some(GeneralInstanceType::MoveUnitImmediate),
        25 => Option::Some(GeneralInstanceType::GiveAllItemsFromUnitToUnit),
        26 => Option::Some(GeneralInstanceType::TimedSpellOnGround),
        27 => Option::Some(GeneralInstanceType::ChangeRespawnTime),
        28 => Option::Some(GeneralInstanceType::HideGroup),
        29 => Option::Some(GeneralInstanceType::ShowGroup),
        30 => Option::Some(GeneralInstanceType::SetUnitsParameter),
        31 => Option::Some(GeneralInstanceType::SetScenarioVariable),
        32 => Option::Some(GeneralInstanceType::SetSubObjective),
        33 => Option::Some(GeneralInstanceType::SetMusicOrder),
        34 => Option::Some(GeneralInstanceType::RemoveItemFromAll),
        35 => Option::Some(GeneralInstanceType::StopGroup),
        _ => Option::None,
    }
}

impl GeneralInstanceType {
    /// Maps the raw tag to its variant; out-of-range tags are malformed.
    pub fn try_from_primitive(n: u32) -> (r: Result<GeneralInstanceType, DecodeError>)
        ensures
            match r {
                Ok(v) => spec_generalinstancetype_from(n) == Option::Some(v),
                Err(e) => e == DecodeError::InvalidTag && spec_generalinstancetype_from(n) is None,
            },
    {
        match n {
        0 => Ok(GeneralInstanceType::Unknown),
        1 => Ok(GeneralInstanceType::IncrementMissionStage),
        2 => Ok(GeneralInstanceType::SendMessage),
        3 => Ok(GeneralInstanceType::SetVariableValue),
        4 => Ok(GeneralInstanceType::ForceMissionComplete),
        5 => Ok(GeneralInstanceType::ForceMissionFailed),
        6 => Ok(GeneralInstanceType::Command),
        7 => Ok(GeneralInstanceType::KeepFormation),
        8 => Ok(GeneralInstanceType::IncrementVariable),
        9 => Ok(GeneralInstanceType::SetDiplomacy),
        10 => Ok(GeneralInstanceType::GiveItem),
        11 => Ok(GeneralInstanceType::AddItemInUnitsSack),
        12 => Ok(GeneralInstanceType::RemoveItemFromUnitsSack),
        13 => Ok(GeneralInstanceType::HideUnit),
        14 => Ok(GeneralInstanceType::ShowUnit),
        15 => Ok(GeneralInstanceType::MetamorphUnit),
        16 => Ok(GeneralInstanceType::ChangeUnitsOwner),
        17 => Ok(GeneralInstanceType::DropAll),
        18 => Ok(GeneralInstanceType::MagicOnArea),
        19 => Ok(GeneralInstanceType::ChangeGroupsOwner),
        20 => Ok(GeneralInstanceType::GiveMoneyToFraction),
        21 => Ok(GeneralInstanceType::MagicOnUnit),
        22 => Ok(GeneralInstanceType::CreateMagicTrigger),
        23 => Ok(GeneralInstanceType::SetStructureHealth),
        24 => Ok(GeneralInstanceType::MoveUnitImmediate),
        25 => Ok(GeneralInstanceType::GiveAllItemsFromUnitToUnit),
        26 => Ok(GeneralInstanceType::TimedSpellOnGround),
        27 => Ok(GeneralInstanceType::ChangeRespawnTime),
        28 => Ok(GeneralInstanceType::HideGroup),
        29 => Ok(GeneralInstanceType::ShowGroup),
        30 => Ok(GeneralInstanceType::SetUnitsParameter),
        31 => Ok(GeneralInstanceType::SetScenarioVariable),
        32 => Ok(GeneralInstanceType::SetSubObjective),
        33 => Ok(GeneralInstanceType::SetMusicOrder),
        34 => Ok(GeneralInstanceType::RemoveItemFromAll),
        35 => Ok(GeneralInstanceType::StopGroup),
            _ => Err(DecodeError::InvalidTag),
        }
    }
}

#[derive(Copy, Clone, PartialEq, Eq, Structural, Debug)]
pub enum CheckType {
    General(GeneralCheckType),
    Constant,
}

pub open spec fn spec_checktype_from(n: u32) -> Option<CheckType> {
    if n <= 0x18 {
        match spec_generalchecktype_from(n) {
            Option::Some(g) => Option::Some(CheckType::General(g)),
            Option::None => Option::None,
        }
    } else if n == 0x10002 {
        Option::Some(CheckType::Constant)
    } else {
        Option::None
    }
}

impl CheckType {
    /// Maps the raw tag to its variant.  Tags between the last defined
    /// general check and the legacy constant cutoff are malformed.
    pub fn try_from_primitive(n: u32) -> (r: Result<CheckType, DecodeError>)
        ensures
            match r {
                Ok(v) => spec_checktype_from(n) == Option::Some(v),
                Err(e) => e == DecodeError::InvalidTag && spec_checktype_from(n) is None,
            },
    {
        if n <= 0x18 {
            let g = GeneralCheckType::try_from_primitive(n)?;
            Ok(CheckType::General(g))
        } else if n == 0x10002 {
            Ok(CheckType::Constant)
        } else {
            Err(DecodeError::InvalidTag)
        }
    }
}

#[derive(Copy, Clone, PartialEq, Eq, Structural, Debug)]
pub enum InstanceType {
    General(GeneralInstanceType),
    StartHere,
    RespawnGroup,
    ChangeMusicTo,
}

pub open spec fn spec_instancetype_from(n: u32) -> Option<InstanceType> {
    if n <= 0x23 {
        match spec_generalinstancetype_from(n) {
            Option::Some(g) => Option::Some(InstanceType::General(g)),
            Option::None => Option::None,
        }
    } else if n == 0x10002 {
        Option::Some(InstanceType::StartHere)
    } else if n == 0x10003 {
        Option::Some(InstanceType::RespawnGroup)
    } else if n == 0x10004 {
        Option::Some(InstanceType::ChangeMusicTo)
    } else {
        Option::None
    }
}

impl InstanceType {
    /// Maps the raw tag to its variant.
    pub fn try_from_primitive(n: u32) -> (r: Result<InstanceType, DecodeError>)
        ensures
            match r {
                Ok(v) => spec_instancetype_from(n) == Option::Some(v),
                Err(e) => e == DecodeError::InvalidTag && spec_instancetype_from(n) is None,
            },
    {
        if n <= 0x23 {
            let g = GeneralInstanceType::try_from_primitive(n)?;
            Ok(InstanceType::General(g))
        } else if n == 0x10002 {
            Ok(InstanceType::StartHere)
        } else if n == 0x10003 {
            Ok(InstanceType::RespawnGroup)
        } else if n == 0x10004 {
            Ok(InstanceType::ChangeMusicTo)
        } else {
            Err(DecodeError::InvalidTag)
        }
    }
}


/// The general map information section: map dimensions and the entry
/// counts every later section is sized by.  The sun angle is kept as the
/// raw bits of the stored 32-bit float.
#[derive(Clone, PartialEq, Eq, Structural, Debug)]
pub struct GeneralMapInfoSection {
    pub width: u32,
    pub height: u32,
    pub negative_sun_angle_bits: u32,
    pub time_in_minutes: u32,
    pub darkness: u32,
    pub contrast: u32,
    pub use_tiles: u32,
    pub fraction_count: u32,
    pub structure_count: u32,
    pub unit_count: u32,
    pub logic_count: u32,
    pub sack_count: u32,
}

impl GeneralMapInfoSection {
    pub open spec fn parsed_at(self, b: Seq<u8>, pos: int) -> bool {
        &&& self.width == le32_at(b, pos)
        &&& self.height == le32_at(b, pos + 4)
        &&& self.negative_sun_angle_bits == le32_at(b, pos + 8)
        &&& self.time_in_minutes == le32_at(b, pos + 12)
        &&& self.darkness == le32_at(b, pos + 16)
        &&& self.contrast == le32_at(b, pos + 20)
        &&& self.use_tiles == le32_at(b, pos + 24)
        &&& self.fraction_count == le32_at(b, pos + 28)
        &&& self.structure_count == le32_at(b, pos + 32)
        &&& self.unit_count == le32_at(b, pos + 36)
        &&& self.logic_count == le32_at(b, pos + 40)
        &&& self.sack_count == le32_at(b, pos + 44)
    }

    /// Reads the 48-byte fixed section.
    pub fn read_from_stream(bytes: &Vec<u8>, pos: &mut usize) -> (r: Result<
        GeneralMapInfoSection,
        DecodeError,
    >)
        ensures
            match r {
                Ok(v) => *old(pos) + 48 <= bytes@.len() && v.parsed_at(bytes@, *old(pos) as int)
                    && *final(pos) == *old(pos) + 48,
                Err(e) => e == DecodeError::UnexpectedEnd && *old(pos) + 48 > bytes@.len()
                    && *final(pos) == *old(pos),
            },
    {
        let start = *pos;
        let mut p = start;
        if bytes.len() < 48 || start > bytes.len() - 48 {
            return Err(DecodeError::UnexpectedEnd);
        }
        let width = read_u32(bytes, &mut p)?;
        let height = read_u32(bytes, &mut p)?;
        let negative_sun_angle_bits = read_u32(bytes, &mut p)?;
        let time_in_minutes = read_u32(bytes, &mut p)?;
        let darkness = read_u32(bytes, &mut p)?;
        let contrast = read_u32(bytes, &mut p)?;
        let use_tiles = read_u32(bytes, &mut p)?;
        let fraction_count = read_u32(bytes, &mut p)?;
        let structure_count = read_u32(bytes, &mut p)?;
        let unit_count = read_u32(bytes, &mut p)?;
        let logic_count = read_u32(bytes, &mut p)?;
        let sack_count = read_u32(bytes, &mut p)?;
        *pos = p;
        Ok(
            GeneralMapInfoSection {
                width,
                height,
                negative_sun_angle_bits,
                time_in_minutes,
                darkness,
                contrast,
                use_tiles,
                fraction_count,
                structure_count,
                unit_count,
                logic_count,
                sack_count,
            },
        )
    }
}

/// One map tile: a packed 16-bit word of terrain kind, tile picture
/// coordinates and passability.
#[derive(Copy, Clone, PartialEq, Eq, Structural, Debug)]
pub struct TileEntry(pub u16);

impl TileEntry {
    /// Bit 5 of the high byte marks a passable tile.
    pub fn is_passable(self) -> (r: bool)
        ensures
            r == (((self.0 / 0x100) & 0x20) != 0),
    {
        ((self.0 / 0x100) & 0x20) != 0
    }

    /// The terrain kind: the low two bits of the high byte.
    pub fn get_terrain_id(self) -> (r: u8)
        ensures
            r == ((self.0 / 0x100) & 0x03) as u8,
    {
        ((self.0 / 0x100) & 0x03) as u8
    }

    /// The tile picture column: the high nibble of the low byte.
    pub fn get_tile_column_id(self) -> (r: u8)
        ensures
            r == ((self.0 & 0xF0) / 0x10) as u8,
    {
        ((self.0 & 0xF0) / 0x10) as u8
    }

    /// The tile picture row: the low nibble, capped at the terrain's row
    /// count (terrain kind 2 has eight rows, the others fourteen).
    pub fn get_tile_row_id(self) -> (r: u8)
        ensures
            ({
                let raw = (self.0 & 0xF) as u8;
                let cap: u8 = if ((self.0 / 0x100) & 0x03) as u8 != 2 {
                    13u8
                } else {
                    7u8
                };
                r == (if raw < cap {
                    raw
                } else {
                    cap
                })
            }),
    {
        let terrain_id = self.get_terrain_id();
        let raw = (self.0 & 0xF) as u8;
        let cap: u8 = if terrain_id != 2 {
            13
        } else {
            7
        };
        if raw < cap {
            raw
        } else {
            cap
        }
    }
}

/// The tile grid, one entry per map cell in raster order.
#[derive(Clone, PartialEq, Eq, Debug)]
pub struct TilesSection {
    pub tiles: Vec<TileEntry>,
}

impl TilesSection {
    /// Reads `width * height` 16-bit tile words.
    #[verifier::loop_isolation(false)]
    pub fn read(bytes: &Vec<u8>, pos: &mut usize, map_info: &GeneralMapInfoSection) -> (r: Result<
        TilesSection,
        DecodeError,
    >)
        ensures
            match r {
                Ok(v) => {
                    let size = (map_info.width as int) * (map_info.height as int);
                    &&& v.tiles@.len() == size
                    &&& *old(pos) + 2 * size <= bytes@.len()
                    &&& forall|k: int|
                        0 <= k < size ==> (#[trigger] v.tiles@[k]).0 == le16_at(
                            bytes@,
                            *old(pos) + 2 * k,
                        )
                    &&& *final(pos) == *old(pos) + 2 * size
                },
                Err(e) => {
                    &&& (e == DecodeError::UnexpectedEnd || e == DecodeError::InvalidTag)
                    &&& *final(pos) == *old(pos)
                },
            },
    {
        let start = *pos;
        proof {
            assert(((map_info.width as u64) as int) * ((map_info.height as u64) as int)
                < 0x1_0000_0000 * 0x1_0000_0000) by (nonlinear_arith)
                requires
                    (map_info.width as u64) < 0x1_0000_0000,
                    (map_info.height as u64) < 0x1_0000_0000,
            ;
        }
        let size64 = (map_info.width as u64) * (map_info.height as u64);
        if size64 > (usize::MAX / 2) as u64 {
            return Err(DecodeError::InvalidTag);
        }
        let size = size64 as usize;
        if bytes.len() < 2 * size || start > bytes.len() - 2 * size {
            return Err(DecodeError::UnexpectedEnd);
        }
        let mut p = start;
        let mut tiles: Vec<TileEntry> = Vec::new();
        let mut k: usize = 0;
        while k < size
            invariant
                k <= size,
                p == start + 2 * k,
                start + 2 * size <= bytes@.len(),
                tiles@.len() == k,
                forall|j: int|
                    0 <= j < k ==> (#[trigger] tiles@[j]).0 == le16_at(bytes@, start + 2 * j),
            decreases size - k,
        {
            let w = match read_u16(bytes, &mut p) {
                Ok(v) => v,
                Err(_) => {
                    proof {
                        assert(false);
                    }
                    0
                },
            };
            tiles.push(TileEntry(w));
            k = k + 1;
        }
        *pos = p;
        Ok(TilesSection { tiles })
    }
}

/// The terrain height map, one byte per cell; a short section reads as
/// zero heights.
#[derive(Clone, PartialEq, Eq, Debug)]
pub struct HeightMapSection {
    pub heights: Vec<u8>,
}

impl HeightMapSection {
    pub fn read(bytes: &Vec<u8>, pos: &mut usize, map_info: &GeneralMapInfoSection) -> (r: Result<
        HeightMapSection,
        DecodeError,
    >)
        requires
            *old(pos) <= bytes@.len(),
        ensures
            match r {
                Ok(v) => {
                    let size = (map_info.width as int) * (map_info.height as int);
                    &&& v.heights@ == spec_padded_slice(bytes@, *old(pos) as int, size as nat)
                    &&& *final(pos) == (if *old(pos) + size <= bytes@.len() {
                        *old(pos) + size
                    } else {
                        bytes@.len() as int
                    })
                },
                Err(e) => e == DecodeError::InvalidTag && *final(pos) == *old(pos),
            },
    {
        proof {
            assert(((map_info.width as u64) as int) * ((map_info.height as u64) as int)
                < 0x1_0000_0000 * 0x1_0000_0000) by (nonlinear_arith)
                requires
                    (map_info.width as u64) < 0x1_0000_0000,
                    (map_info.height as u64) < 0x1_0000_0000,
            ;
        }
        let size64 = (map_info.width as u64) * (map_info.height as u64);
        if size64 > (usize::MAX / 2) as u64 {
            return Err(DecodeError::InvalidTag);
        }
        let size = size64 as usize;
        let heights = read_padded(bytes, *pos, size);
        let rem = bytes.len() - *pos;
        *pos = if size <= rem {
            *pos + size
        } else {
            bytes.len()
        };
        Ok(HeightMapSection { heights })
    }
}

/// The object layer, one byte per cell, read exactly as the height map.
#[derive(Clone, PartialEq, Eq, Debug)]
pub struct MapObjectsSection {
    pub heights: Vec<u8>,
}

impl MapObjectsSection {
    pub fn read(bytes: &Vec<u8>, pos: &mut usize, map_info: &GeneralMapInfoSection) -> (r: Result<
        MapObjectsSection,
        DecodeError,
    >)
        requires
            *old(pos) <= bytes@.len(),
        ensures
            match r {
                Ok(v) => {
                    let size = (map_info.width as int) * (map_info.height as int);
                    &&& v.heights@ == spec_padded_slice(bytes@, *old(pos) as int, size as nat)
                    &&& *final(pos) == (if *old(pos) + size <= bytes@.len() {
                        *old(pos) + size
                    } else {
                        bytes@.len() as int
                    })
                },
                Err(e) => e == DecodeError::InvalidTag && *final(pos) == *old(pos),
            },
    {
        let h = HeightMapSection::read(bytes, pos, map_info)?;
        Ok(MapObjectsSection { heights: h.heights })
    }
}


/// One player fraction: identity, treasury and diplomacy table.
#[derive(Clone, PartialEq, Debug)]
pub struct FractionEntry {
    pub color_id: u32,
    pub flags: u32,
    pub money: u32,
    pub name: String,
    pub diplomacy_states: [u16; 16],
}

impl FractionEntry {
    pub open spec fn parsed_at(self, b: Seq<u8>, pos: int) -> bool {
        &&& self.color_id == le32_at(b, pos)
        &&& self.flags == le32_at(b, pos + 4)
        &&& self.money == le32_at(b, pos + 8)
        &&& self.name@ == cp866_decoded(b.subrange(pos + 12, pos + 44))
        &&& forall|i: int| 0 <= i < 16 ==> self.diplomacy_states@[i] == le16_at(b, pos + 44 + 2 * i)
    }

    /// Reads one 76-byte fraction record.
    #[verifier::loop_isolation(false)]
    pub fn read_from_stream(bytes: &Vec<u8>, pos: &mut usize) -> (r: Result<
        FractionEntry,
        DecodeError,
    >)
        ensures
            match r {
                Ok(v) => *old(pos) + 76 <= bytes@.len() && v.parsed_at(bytes@, *old(pos) as int)
                    && *final(pos) == *old(pos) + 76,
                Err(e) => e == DecodeError::UnexpectedEnd && *old(pos) + 76 > bytes@.len()
                    && *final(pos) == *old(pos),
            },
    {
        let start = *pos;
        if bytes.len() < 76 || start > bytes.len() - 76 {
            return Err(DecodeError::UnexpectedEnd);
        }
        let mut p = start;
        let color_id = read_u32(bytes, &mut p)?;
        let flags = read_u32(bytes, &mut p)?;
        let money = read_u32(bytes, &mut p)?;
        let raw = read_exact(bytes, &mut p, 32)?;
        let name = crate::shared_types::decode_cp866(&raw);
        let mut diplomacy_states = [0u16;16];
        let mut i: usize = 0;
        while i < 16
            invariant
                i <= 16,
                p == start + 44 + 2 * i,
                start + 76 <= bytes@.len(),
                forall|j: int|
                    0 <= j < i ==> diplomacy_states@[j] == le16_at(bytes@, start + 44 + 2 * j),
            decreases 16 - i,
        {
            diplomacy_states[i] = match read_u16(bytes, &mut p) {
                Ok(v) => v,
                Err(_) => {
                    proof {
                        assert(false);
                    }
                    0
                },
            };
            i = i + 1;
        }
        *pos = p;
        Ok(FractionEntry { color_id, flags, money, name, diplomacy_states })
    }
}

/// Every fraction on the map.
#[derive(Clone, PartialEq, Debug)]
pub struct FractionsSection {
    pub fractions: Vec<FractionEntry>,
}

impl FractionsSection {
    /// Reads `fraction_count` fixed-size fraction records.
    #[verifier::loop_isolation(false)]
    pub fn read(bytes: &Vec<u8>, pos: &mut usize, map_info: &GeneralMapInfoSection) -> (r: Result<
        FractionsSection,
        DecodeError,
    >)
        ensures
            match r {
                Ok(v) => {
                    let n = map_info.fraction_count as int;
                    &&& v.fractions@.len() == n
                    &&& *old(pos) + 76 * n <= bytes@.len()
                    &&& forall|k: int|
                        0 <= k < n ==> (#[trigger] v.fractions@[k]).parsed_at(
                            bytes@,
                            *old(pos) + 76 * k,
                        )
                    &&& *final(pos) == *old(pos) + 76 * n
                },
                Err(e) => e == DecodeError::UnexpectedEnd && *old(pos) + 76 * (
                map_info.fraction_count as int) > bytes@.len() && *final(pos) == *old(pos),
            },
    {
        let start = *pos;
        let n64 = map_info.fraction_count as u64;
        if start as u64 > bytes.len() as u64 || 76 * n64 > (bytes.len() - start) as u64 {
            return Err(DecodeError::UnexpectedEnd);
        }
        let n = map_info.fraction_count as usize;
        let mut p = start;
        let mut fractions: Vec<FractionEntry> = Vec::new();
        let mut k: usize = 0;
        while k < n
            invariant
                k <= n,
                p == start + 76 * k,
                start + 76 * n <= bytes@.len(),
                fractions@.len() == k,
                forall|j: int|
                    0 <= j < k ==> (#[trigger] fractions@[j]).parsed_at(bytes@, start + 76 * j),
            decreases n - k,
        {
            let e = match FractionEntry::read_from_stream(bytes, &mut p) {
                Ok(v) => v,
                Err(er) => {
                    proof {
                        assert(false);
                    }
                    return Err(er);
                },
            };
            fractions.push(e);
            k = k + 1;
        }
        *pos = p;
        Ok(FractionsSection { fractions })
    }
}

/// One placed unit; the four scratch floats of the stored record are
/// skipped, not kept.
#[derive(Clone, Copy, PartialEq, Eq, Structural, Debug)]
pub struct UnitEntry {
    pub x_coord: u32,
    pub y_coord: u32,
    pub type_id: u16,
    pub face_ide: u16,
    pub special_flags: u32,
    pub server_id: u32,
    pub fraction_id: u32,
    pub sack_id: u32,
    pub view_angle: u32,
    pub unit_id: u16,
    pub group_id: u32,
}

impl UnitEntry {
    pub open spec fn parsed_at(self, b: Seq<u8>, pos: int) -> bool {
        &&& self.x_coord == le32_at(b, pos)
        &&& self.y_coord == le32_at(b, pos + 4)
        &&& self.type_id == le16_at(b, pos + 8)
        &&& self.face_ide == le16_at(b, pos + 10)
        &&& self.special_flags == le32_at(b, pos + 12)
        &&& self.server_id == le32_at(b, pos + 16)
        &&& self.fraction_id == le32_at(b, pos + 20)
        &&& self.sack_id == le32_at(b, pos + 24)
        &&& self.view_angle == le32_at(b, pos + 28)
        &&& self.unit_id == le16_at(b, pos + 64)
        &&& self.group_id == le32_at(b, pos + 66)
    }

    /// Reads one 70-byte unit record.
    pub fn read_from_stream(bytes: &Vec<u8>, pos: &mut usize) -> (r: Result<UnitEntry, DecodeError>)
        ensures
            match r {
                Ok(v) => *old(pos) + 70 <= bytes@.len() && v.parsed_at(bytes@, *old(pos) as int)
                    && *final(pos) == *old(pos) + 70,
                Err(e) => e == DecodeError::UnexpectedEnd && *old(pos) + 70 > bytes@.len()
                    && *final(pos) == *old(pos),
            },
    {
        let start = *pos;
        if bytes.len() < 70 || start > bytes.len() - 70 {
            return Err(DecodeError::UnexpectedEnd);
        }
        let mut p = start;
        let x_coord = read_u32(bytes, &mut p)?;
        let y_coord = read_u32(bytes, &mut p)?;
        let type_id = read_u16(bytes, &mut p)?;
        let face_ide = read_u16(bytes, &mut p)?;
        let special_flags = read_u32(bytes, &mut p)?;
        let server_id = read_u32(bytes, &mut p)?;
        let fraction_id = read_u32(bytes, &mut p)?;
        let sack_id = read_u32(bytes, &mut p)?;
        let view_angle = read_u32(bytes, &mut p)?;
        skip_bytes(bytes, &mut p, 32)?;
        let unit_id = read_u16(bytes, &mut p)?;
        let group_id = read_u32(bytes, &mut p)?;
        *pos = p;
        Ok(
            UnitEntry {
                x_coord,
                y_coord,
                type_id,
                face_ide,
                special_flags,
                server_id,
                fraction_id,
                sack_id,
                view_angle,
                unit_id,
                group_id,
            },
        )
    }
}

/// Every unit on the map.
#[derive(Clone, PartialEq, Debug)]
pub struct UnitsSection {
    pub units: Vec<UnitEntry>,
}

impl UnitsSection {
    /// Reads `unit_count` fixed-size unit records.
    #[verifier::loop_isolation(false)]
    pub fn read(bytes: &Vec<u8>, pos: &mut usize, map_info: &GeneralMapInfoSection) -> (r: Result<
        UnitsSection,
        DecodeError,
    >)
        ensures
            match r {
                Ok(v) => {
                    let n = map_info.unit_count as int;
                    &&& v.units@.len() == n
                    &&& *old(pos) + 70 * n <= bytes@.len()
                    &&& forall|k: int|
                        0 <= k < n ==> (#[trigger] v.units@[k]).parsed_at(bytes@, *old(pos) + 70 * k)
                    &&& *final(pos) == *old(pos) + 70 * n
                },
                Err(e) => e == DecodeError::UnexpectedEnd && *old(pos) + 70 * (
                map_info.unit_count as int) > bytes@.len() && *final(pos) == *old(pos),
            },
    {
        let start = *pos;
        let n64 = map_info.unit_count as u64;
        if start as u64 > bytes.len() as u64 || 70 * n64 > (bytes.len() - start) as u64 {
            return Err(DecodeError::UnexpectedEnd);
        }
        let n = map_info.unit_count as usize;
        let mut p = start;
        let mut units: Vec<UnitEntry> = Vec::new();
        let mut k: usize = 0;
        while k < n
            invariant
                k <= n,
                p == start + 70 * k,
                start + 70 * n <= bytes@.len(),
                units@.len() == k,
                forall|j: int|
                    0 <= j < k ==> (#[trigger] units@[j]).parsed_at(bytes@, start + 70 * j),
            decreases n - k,
        {
            let e = match UnitEntry::read_from_stream(bytes, &mut p) {
                Ok(v) => v,
                Err(er) => {
                    proof {
                        assert(false);
                    }
                    return Err(er);
                },
            };
            units.push(e);
            k = k + 1;
        }
        *pos = p;
        Ok(UnitsSection { units })
    }
}


/// Extra dimensions of the one variable-size bridge structure.
#[derive(Clone, Copy, PartialEq, Eq, Structural, Debug)]
pub struct BridgeInfo {
    pub width: u32,
    pub height: u32,
}

/// One placed structure; structure kind 33 (the variable bridge) carries
/// its dimensions inline.
#[derive(Clone, Copy, PartialEq, Eq, Structural, Debug)]
pub struct StructureEntry {
    pub x_coord: u32,
    pub y_coord: u32,
    pub type_id: u32,
    pub health: u16,
    pub fraction_id: u32,
    pub id: u16,
    pub bridge_info: BridgeInfo,
}

/// One structure record parsed at `pos`: twenty bytes, plus eight more of
/// bridge dimensions for kind 33.
pub open spec fn spec_structure_entry(b: Seq<u8>, pos: int) -> Option<(StructureEntry, int)> {
    if pos + 20 > b.len() || pos < 0 {
        Option::None
    } else {
        let t = le32_at(b, pos + 8) as u32;
        let base = StructureEntry {
            x_coord: le32_at(b, pos) as u32,
            y_coord: le32_at(b, pos + 4) as u32,
            type_id: t,
            health: le16_at(b, pos + 12) as u16,
            fraction_id: le32_at(b, pos + 14) as u32,
            id: le16_at(b, pos + 18) as u16,
            bridge_info: BridgeInfo { width: 0, height: 0 },
        };
        if t == 33 {
            if pos + 28 > b.len() {
                Option::None
            } else {
                Option::Some(
                    (
                        StructureEntry {
                            bridge_info: BridgeInfo {
                                width: le32_at(b, pos + 20) as u32,
                                height: le32_at(b, pos + 24) as u32,
                            },
                            ..base
                        },
                        pos + 28,
                    ),
                )
            }
        } else {
            Option::Some((base, pos + 20))
        }
    }
}

impl StructureEntry {
    /// Reads one structure record.
    pub fn read_from_stream(bytes: &Vec<u8>, pos: &mut usize) -> (r: Result<
        StructureEntry,
        DecodeError,
    >)
        ensures
            match r {
                Ok(v) => spec_structure_entry(bytes@, *old(pos) as int) == Option::Some(
                    (v, *final(pos) as int),
                ),
                Err(e) => e == DecodeError::UnexpectedEnd && spec_structure_entry(
                    bytes@,
                    *old(pos) as int,
                ) is None && *final(pos) == *old(pos),
            },
    {
        let start = *pos;
        if bytes.len() < 20 || start > bytes.len() - 20 {
            return Err(DecodeError::UnexpectedEnd);
        }
        let mut p = start;
        let x_coord = read_u32(bytes, &mut p)?;
        let y_coord = read_u32(bytes, &mut p)?;
        let type_id = read_u32(bytes, &mut p)?;
        let health = read_u16(bytes, &mut p)?;
        let fraction_id = read_u32(bytes, &mut p)?;
        let id = read_u16(bytes, &mut p)?;
        let mut bridge_info = BridgeInfo { width: 0, height: 0 };
        if type_id == 33 {
            if bytes.len() - p < 8 {
                *pos = start;
                return Err(DecodeError::UnexpectedEnd);
            }
            let w = read_u32(bytes, &mut p)?;
            let h = read_u32(bytes, &mut p)?;
            bridge_info = BridgeInfo { width: w, height: h };
        }
        *pos = p;
        Ok(StructureEntry { x_coord, y_coord, type_id, health, fraction_id, id, bridge_info })
    }
}

/// `n` consecutive structure records starting at `pos`.
pub open spec fn spec_parse_structures(b: Seq<u8>, pos: int, n: int) -> Option<(
    Seq<StructureEntry>,
    int,
)>
    decreases n,
{
    if n <= 0 {
        Option::Some((Seq::empty(), pos))
    } else {
        match spec_structure_entry(b, pos) {
            Option::None => Option::None,
            Option::Some(ep) => match spec_parse_structures(b, ep.1, n - 1) {
                Option::None => Option::None,
                Option::Some(rp) => Option::Some((seq![ep.0] + rp.0, rp.1)),
            },
        }
    }
}

/// Every structure on the map.
#[derive(Clone, PartialEq, Debug)]
pub struct StructuresSection {
    pub structures: Vec<StructureEntry>,
}

impl StructuresSection {
    /// Reads `structure_count` structure records.
    #[verifier::loop_isolation(false)]
    pub fn read(bytes: &Vec<u8>, pos: &mut usize, map_info: &GeneralMapInfoSection) -> (r: Result<
        StructuresSection,
        DecodeError,
    >)
        ensures
            match r {
                Ok(v) => spec_parse_structures(
                    bytes@,
                    *old(pos) as int,
                    map_info.structure_count as int,
                ) == Option::Some((v.structures@, *final(pos) as int)),
                Err(e) => e == DecodeError::UnexpectedEnd && spec_parse_structures(
                    bytes@,
                    *old(pos) as int,
                    map_info.structure_count as int,
                ) is None && *final(pos) == *old(pos),
            },
    {
        let start = *pos;
        let ghost b = bytes@;
        let ghost n0 = map_info.structure_count as int;
        let mut p = start;
        let mut structures: Vec<StructureEntry> = Vec::new();
        let mut k: u32 = 0;
        let n = map_info.structure_count;
        while k < n
            invariant
                k <= n,
                structures@.len() == k,
                ({
                    match spec_parse_structures(b, p as int, n0 - k) {
                        Option::Some(rp) => spec_parse_structures(b, start as int, n0)
                            == Option::Some((structures@ + rp.0, rp.1)),
                        Option::None => spec_parse_structures(b, start as int, n0) is None,
                    }
                }),
            decreases n - k,
        {
            let e = match StructureEntry::read_from_stream(bytes, &mut p) {
                Ok(v) => v,
                Err(er) => {
                    *pos = start;
                    return Err(er);
                },
            };
            structures.push(e);
            proof {
                assert forall|rest: Seq<StructureEntry>|
                    true implies #[trigger] (structures@ + rest) =~= (structures@.subrange(
                    0,
                    structures@.len() - 1,
                ) + (seq![e] + rest)) by {
                }
            }
            k = k + 1;
        }
        *pos = p;
        proof {
            assert(structures@ + Seq::<StructureEntry>::empty() =~= structures@);
        }
        Ok(StructuresSection { structures })
    }
}


/// One item lying in a sack.
#[derive(Clone, Copy, PartialEq, Eq, Structural, Debug)]
pub struct ItemEntry {
    pub id: u32,
    pub wielded: u16,
    pub effect_id: u32,
}

/// One sack: its position, money and items.
#[derive(Clone, PartialEq, Debug)]
pub struct SackEntry {
    pub unit_id: u32,
    pub x_coord: u16,
    pub y_coord: u16,
    pub money: u32,
    pub items: Vec<ItemEntry>,
}

/// Where one sack record parsed at `pos` ends: a sixteen-byte head (led
/// by the item count) and ten bytes per item; `None` when truncated.
pub open spec fn spec_sack_entry(b: Seq<u8>, pos: int) -> Option<int> {
    if pos < 0 || pos + 16 > b.len() {
        Option::None
    } else {
        let c = le32_at(b, pos);
        if pos + 16 + 10 * c > b.len() {
            Option::None
        } else {
            Option::Some(pos + 16 + 10 * c)
        }
    }
}

/// A sack entry's fields match the bytes of its record at `pos`.
pub open spec fn sack_parsed_at(v: SackEntry, b: Seq<u8>, pos: int) -> bool {
    &&& v.unit_id == le32_at(b, pos + 4)
    &&& v.x_coord == le16_at(b, pos + 8)
    &&& v.y_coord == le16_at(b, pos + 10)
    &&& v.money == le32_at(b, pos + 12)
    &&& v.items@ == spec_sack_items(b, pos)
}

/// The items of a sack whose head starts at `pos`.
pub open spec fn spec_sack_items(b: Seq<u8>, pos: int) -> Seq<ItemEntry> {
    Seq::new(
        (le32_at(b, pos)) as nat,
        |k: int|
            ItemEntry {
                id: le32_at(b, pos + 16 + 10 * k) as u32,
                wielded: le16_at(b, pos + 16 + 10 * k + 4) as u16,
                effect_id: le32_at(b, pos + 16 + 10 * k + 6) as u32,
            },
    )
}

impl SackEntry {
    /// Reads one sack record with its items.
    #[verifier::loop_isolation(false)]
    pub fn read_from_stream(bytes: &Vec<u8>, pos: &mut usize) -> (r: Result<SackEntry, DecodeError>)
        ensures
            match r {
                Ok(v) => {
                    &&& spec_sack_entry(bytes@, *old(pos) as int) is Some
                    &&& sack_parsed_at(v, bytes@, *old(pos) as int)
                    &&& *final(pos) == spec_sack_entry(bytes@, *old(pos) as int).unwrap()
                },
                Err(e) => e == DecodeError::UnexpectedEnd && spec_sack_entry(
                    bytes@,
                    *old(pos) as int,
                ) is None && *final(pos) == *old(pos),
            },
    {
        let start = *pos;
        if bytes.len() < 16 || start > bytes.len() - 16 {
            return Err(DecodeError::UnexpectedEnd);
        }
        let mut p = start;
        let item_count = read_u32(bytes, &mut p)?;
        let unit_id = read_u32(bytes, &mut p)?;
        let x_coord = read_u16(bytes, &mut p)?;
        let y_coord = read_u16(bytes, &mut p)?;
        let money = read_u32(bytes, &mut p)?;
        if (10 * (item_count as u64)) > (bytes.len() - p) as u64 {
            *pos = start;
            return Err(DecodeError::UnexpectedEnd);
        }
        let n = item_count as usize;
        let mut items: Vec<ItemEntry> = Vec::new();
        let mut k: usize = 0;
        while k < n
            invariant
                k <= n,
                p == start + 16 + 10 * k,
                start + 16 + 10 * n <= bytes@.len(),
                items@.len() == k,
                forall|j: int|
                    0 <= j < k ==> #[trigger] items@[j] == spec_sack_items(bytes@, start as int)[j],
            decreases n - k,
        {
            let id = match read_u32(bytes, &mut p) {
                Ok(v) => v,
                Err(_) => {
                    proof {
                        assert(false);
                    }
                    0
                },
            };
            let wielded = match read_u16(bytes, &mut p) {
                Ok(v) => v,
                Err(_) => {
                    proof {
                        assert(false);
                    }
                    0
                },
            };
            let effect_id = match read_u32(bytes, &mut p) {
                Ok(v) => v,
                Err(_) => {
                    proof {
                        assert(false);
                    }
                    0
                },
            };
            items.push(ItemEntry { id, wielded, effect_id });
            k = k + 1;
        }
        proof {
            assert(items@ =~= spec_sack_items(bytes@, start as int));
        }
        *pos = p;
        Ok(SackEntry { unit_id, x_coord, y_coord, money, items })
    }
}

/// Sack records compose like structure records.
pub open spec fn spec_parse_sacks(b: Seq<u8>, pos: int, n: int) -> Option<(Seq<int>, int)>
    decreases n,
{
    if n <= 0 {
        Option::Some((Seq::empty(), pos))
    } else {
        match spec_sack_entry(b, pos) {
            Option::None => Option::None,
            Option::Some(e) => match spec_parse_sacks(b, e, n - 1) {
                Option::None => Option::None,
                Option::Some(rp) => Option::Some((seq![pos] + rp.0, rp.1)),
            },
        }
    }
}

/// Every sack on the map.
#[derive(Clone, PartialEq, Debug)]
pub struct SacksSection {
    pub sacks: Vec<SackEntry>,
}

impl SacksSection {
    /// Reads `sack_count` sack records; each parsed record sits at the
    /// position the walk assigns it.
    #[verifier::loop_isolation(false)]
    pub fn read(bytes: &Vec<u8>, pos: &mut usize, map_info: &GeneralMapInfoSection) -> (r: Result<
        SacksSection,
        DecodeError,
    >)
        ensures
            match r {
                Ok(v) => {
                    &&& spec_parse_sacks(bytes@, *old(pos) as int, map_info.sack_count as int)
                        is Some
                    &&& ({
                        let w = spec_parse_sacks(
                            bytes@,
                            *old(pos) as int,
                            map_info.sack_count as int,
                        ).unwrap();
                        &&& v.sacks@.len() == map_info.sack_count as int
                        &&& *final(pos) == w.1
                        &&& forall|j: int|
                            0 <= j < v.sacks@.len() ==> sack_parsed_at(
                                #[trigger] v.sacks@[j],
                                bytes@,
                                w.0[j],
                            )
                    })
                },
                Err(e) => e == DecodeError::UnexpectedEnd && spec_parse_sacks(
                    bytes@,
                    *old(pos) as int,
                    map_info.sack_count as int,
                ) is None && *final(pos) == *old(pos),
            },
    {
        let start = *pos;
        let ghost b = bytes@;
        let ghost n0 = map_info.sack_count as int;
        let mut p = start;
        let mut sacks: Vec<SackEntry> = Vec::new();
        let ghost mut starts: Seq<int> = Seq::empty();
        let n = map_info.sack_count;
        let mut k: u32 = 0;
        while k < n
            invariant
                k <= n,
                sacks@.len() == k,
                starts.len() == k,
                forall|j: int|
                    0 <= j < k ==> spec_sack_entry(b, #[trigger] starts[j]) is Some
                        && sack_parsed_at(sacks@[j], b, starts[j]),
                ({
                    match spec_parse_sacks(b, p as int, n0 - k) {
                        Option::Some(rp) => spec_parse_sacks(b, start as int, n0) == Option::Some(
                            (starts + rp.0, rp.1),
                        ),
                        Option::None => spec_parse_sacks(b, start as int, n0) is None,
                    }
                }),
            decreases n - k,
        {
            let ghost p_entry = p as int;
            let e = match SackEntry::read_from_stream(bytes, &mut p) {
                Ok(v) => v,
                Err(er) => {
                    *pos = start;
                    return Err(er);
                },
            };
            sacks.push(e);
            proof {
                starts = starts.push(p_entry);
                assert forall|rest: Seq<int>| true implies #[trigger] (starts + rest) =~= (
                starts.subrange(0, starts.len() - 1) + (seq![p_entry] + rest)) by {
                }
            }
            k = k + 1;
        }
        *pos = p;
        proof {
            assert(starts + Seq::<int>::empty() =~= starts);
        }
        Ok(SacksSection { sacks })
    }
}

/// One stat modifier of a map effect.
#[derive(Clone, Copy, PartialEq, Eq, Structural, Debug)]
pub struct EffectModifier {
    pub modifier_type: u16,
    pub modifier_value: u32,
}

/// One map effect (a trap or enchantment) with its modifier list.
#[derive(Clone, PartialEq, Debug)]
pub struct EffectEntry {
    pub corrupt_effect_id: u32,
    pub trap_x: u32,
    pub trap_y: u32,
    pub flags_or_magic_sphere: u16,
    pub service_data: u64,
    pub modifiers: Vec<EffectModifier>,
}

/// Where one effect record parsed at `pos` ends: a twenty-six byte head
/// ending in the modifier count, then six bytes per modifier.
pub open spec fn spec_effect_entry(b: Seq<u8>, pos: int) -> Option<int> {
    if pos < 0 || pos + 26 > b.len() {
        Option::None
    } else {
        let c = le32_at(b, pos + 22);
        if pos + 26 + 6 * c > b.len() {
            Option::None
        } else {
            Option::Some(pos + 26 + 6 * c)
        }
    }
}

/// An effect entry's fields match the bytes of its record at `pos`.
pub open spec fn effect_parsed_at(v: EffectEntry, b: Seq<u8>, pos: int) -> bool {
    &&& v.corrupt_effect_id == le32_at(b, pos)
    &&& v.trap_x == le32_at(b, pos + 4)
    &&& v.trap_y == le32_at(b, pos + 8)
    &&& v.flags_or_magic_sphere == le16_at(b, pos + 12)
    &&& v.service_data == crate::byte_stream::le64_at(b, pos + 14)
    &&& v.modifiers@ == spec_effect_modifiers(b, pos)
}

/// The modifiers of an effect whose head starts at `pos`.
pub open spec fn spec_effect_modifiers(b: Seq<u8>, pos: int) -> Seq<EffectModifier> {
    Seq::new(
        (le32_at(b, pos + 22)) as nat,
        |k: int|
            EffectModifier {
                modifier_type: le16_at(b, pos + 26 + 6 * k) as u16,
                modifier_value: le32_at(b, pos + 26 + 6 * k + 2) as u32,
            },
    )
}

impl EffectEntry {
    /// Reads one effect record with its modifiers.
    #[verifier::loop_isolation(false)]
    pub fn read_from_stream(bytes: &Vec<u8>, pos: &mut usize) -> (r: Result<
        EffectEntry,
        DecodeError,
    >)
        ensures
            match r {
                Ok(v) => {
                    &&& spec_effect_entry(bytes@, *old(pos) as int) is Some
                    &&& effect_parsed_at(v, bytes@, *old(pos) as int)
                    &&& *final(pos) == spec_effect_entry(bytes@, *old(pos) as int).unwrap()
                },
                Err(e) => e == DecodeError::UnexpectedEnd && spec_effect_entry(
                    bytes@,
                    *old(pos) as int,
                ) is None && *final(pos) == *old(pos),
            },
    {
        let start = *pos;
        if bytes.len() < 26 || start > bytes.len() - 26 {
            return Err(DecodeError::UnexpectedEnd);
        }
        let mut p = start;
        let corrupt_effect_id = read_u32(bytes, &mut p)?;
        let trap_x = read_u32(bytes, &mut p)?;
        let trap_y = read_u32(bytes, &mut p)?;
        let flags_or_magic_sphere = read_u16(bytes, &mut p)?;
        let service_data = crate::byte_stream::read_u64(bytes, &mut p)?;
        let modifier_count = read_u32(bytes, &mut p)?;
        if (6 * (modifier_count as u64)) > (bytes.len() - p) as u64 {
            *pos = start;
            return Err(DecodeError::UnexpectedEnd);
        }
        let n = modifier_count as usize;
        let mut modifiers: Vec<EffectModifier> = Vec::new();
        let mut k: usize = 0;
        while k < n
            invariant
                k <= n,
                p == start + 26 + 6 * k,
                start + 26 + 6 * n <= bytes@.len(),
                modifiers@.len() == k,
                forall|j: int|
                    0 <= j < k ==> #[trigger] modifiers@[j] == spec_effect_modifiers(
                        bytes@,
                        start as int,
                    )[j],
            decreases n - k,
        {
            let modifier_type = match read_u16(bytes, &mut p) {
                Ok(v) => v,
                Err(_) => {
                    proof {
                        assert(false);
                    }
                    0
                },
            };
            let modifier_value = match read_u32(bytes, &mut p) {
                Ok(v) => v,
                Err(_) => {
                    proof {
                        assert(false);
                    }
                    0
                },
            };
            modifiers.push(EffectModifier { modifier_type, modifier_value });
            k = k + 1;
        }
        proof {
            assert(modifiers@ =~= spec_effect_modifiers(bytes@, start as int));
        }
        *pos = p;
        Ok(
            EffectEntry {
                corrupt_effect_id,
                trap_x,
                trap_y,
                flags_or_magic_sphere,
                service_data,
                modifiers,
            },
        )
    }
}

/// Effect records compose like sack records.
pub open spec fn spec_parse_effects(b: Seq<u8>, pos: int, n: int) -> Option<(Seq<int>, int)>
    decreases n,
{
    if n <= 0 {
        Option::Some((Seq::empty(), pos))
    } else {
        match spec_effect_entry(b, pos) {
            Option::None => Option::None,
            Option::Some(e) => match spec_parse_effects(b, e, n - 1) {
                Option::None => Option::None,
                Option::Some(rp) => Option::Some((seq![pos] + rp.0, rp.1)),
            },
        }
    }
}

/// Every effect on the map, led by its count word.
#[derive(Clone, PartialEq, Debug)]
pub struct EffectsSection {
    pub effects: Vec<EffectEntry>,
}

impl EffectsSection {
    /// Reads the effect count and that many effect records.
    #[verifier::loop_isolation(false)]
    pub fn read_from_stream(bytes: &Vec<u8>, pos: &mut usize) -> (r: Result<
        EffectsSection,
        DecodeError,
    >)
        ensures
            match r {
                Ok(v) => {
                    &&& *old(pos) + 4 <= bytes@.len()
                    &&& ({
                        let n = le32_at(bytes@, *old(pos) as int);
                        &&& spec_parse_effects(bytes@, *old(pos) + 4, n) is Some
                        &&& ({
                            let w = spec_parse_effects(bytes@, *old(pos) + 4, n).unwrap();
                            &&& v.effects@.len() == n
                            &&& *final(pos) == w.1
                            &&& forall|j: int|
                                0 <= j < v.effects@.len() ==> effect_parsed_at(
                                    #[trigger] v.effects@[j],
                                    bytes@,
                                    w.0[j],
                                )
                        })
                    })
                },
                Err(e) => e == DecodeError::UnexpectedEnd && *final(pos) == *old(pos),
            },
    {
        let start = *pos;
        let ghost b = bytes@;
        let mut p = start;
        let effect_count = read_u32(bytes, &mut p)?;
        let ghost n0 = effect_count as int;
        let ghost after_count = p as int;
        let mut effects: Vec<EffectEntry> = Vec::new();
        let ghost mut starts: Seq<int> = Seq::empty();
        let mut k: u32 = 0;
        while k < effect_count
            invariant
                k <= effect_count,
                effects@.len() == k,
                starts.len() == k,
                forall|j: int|
                    0 <= j < k ==> spec_effect_entry(b, #[trigger] starts[j]) is Some
                        && effect_parsed_at(effects@[j], b, starts[j]),
                ({
                    match spec_parse_effects(b, p as int, n0 - k) {
                        Option::Some(rp) => spec_parse_effects(b, after_count, n0) == Option::Some(
                            (starts + rp.0, rp.1),
                        ),
                        Option::None => spec_parse_effects(b, after_count, n0) is None,
                    }
                }),
            decreases effect_count - k,
        {
            let ghost p_entry = p as int;
            let e = match EffectEntry::read_from_stream(bytes, &mut p) {
                Ok(v) => v,
                Err(er) => {
                    *pos = start;
                    return Err(er);
                },
            };
            effects.push(e);
            proof {
                starts = starts.push(p_entry);
                assert forall|rest: Seq<int>| true implies #[trigger] (starts + rest) =~= (
                starts.subrange(0, starts.len() - 1) + (seq![p_entry] + rest)) by {
                }
            }
            k = k + 1;
        }
        *pos = p;
        proof {
            assert(starts + Seq::<int>::empty() =~= starts);
        }
        Ok(EffectsSection { effects })
    }
}


/// One script action ("instance").
#[derive(Clone, PartialEq, Debug)]
pub struct InstanceEntry {
    pub name: String,
    pub instance_type: InstanceType,
    pub id: u32,
    pub execute_once: u32,
    pub argument_values: [u32; 10],
    pub argument_types: Vec<ArgumentType>,
    pub argument_names: Vec<String>,
}

/// All tag words of an instance record are in range.
pub open spec fn instance_entry_valid(b: Seq<u8>, pos: int) -> bool {
    &&& spec_instancetype_from(le32_at(b, pos + 64) as u32) is Some
    &&& forall|t: int|
        0 <= t < 10 ==> spec_argumenttype_from(#[trigger] le32_at(b, pos + 116 + 4 * t) as u32)
            is Some
}

pub open spec fn instance_parsed_at(v: InstanceEntry, b: Seq<u8>, pos: int) -> bool {
    &&& v.name@ == cp866_decoded(b.subrange(pos, pos + 64))
    &&& Option::Some(v.instance_type) == spec_instancetype_from(le32_at(b, pos + 64) as u32)
    &&& v.id == le32_at(b, pos + 68)
    &&& v.execute_once == le32_at(b, pos + 72)
    &&& forall|t: int| 0 <= t < 10 ==> v.argument_values@[t] == le32_at(b, pos + 76 + 4 * t)
    &&& v.argument_types@.len() == 10
    &&& forall|t: int|
        0 <= t < 10 ==> Option::Some(#[trigger] v.argument_types@[t]) == spec_argumenttype_from(
            le32_at(b, pos + 116 + 4 * t) as u32,
        )
    &&& v.argument_names@.len() == 10
    &&& forall|t: int|
        0 <= t < 10 ==> (#[trigger] v.argument_names@[t])@ == cp866_decoded(
            b.subrange(pos + 156 + 64 * t, pos + 156 + 64 * t + 64),
        )
}

impl InstanceEntry {
    /// Reads one 796-byte instance record.
    #[verifier::loop_isolation(false)]
    pub fn read_from_stream(bytes: &Vec<u8>, pos: &mut usize) -> (r: Result<
        InstanceEntry,
        DecodeError,
    >)
        ensures
            match r {
                Ok(v) => {
                    &&& *old(pos) + 796 <= bytes@.len()
                    &&& instance_entry_valid(bytes@, *old(pos) as int)
                    &&& instance_parsed_at(v, bytes@, *old(pos) as int)
                    &&& *final(pos) == *old(pos) + 796
                },
                Err(e) => {
                    &&& *final(pos) == *old(pos)
                    &&& match e {
                        DecodeError::UnexpectedEnd => *old(pos) + 796 > bytes@.len(),
                        DecodeError::InvalidTag => *old(pos) + 796 <= bytes@.len()
                            && !instance_entry_valid(bytes@, *old(pos) as int),
                        _ => false,
                    }
                },
            },
    {
        let start = *pos;
        if bytes.len() < 796 || start > bytes.len() - 796 {
            return Err(DecodeError::UnexpectedEnd);
        }
        let mut p = start;
        let raw_name = read_exact(bytes, &mut p, 64)?;
        let name = crate::shared_types::decode_cp866(&raw_name);
        let ty_raw = read_u32(bytes, &mut p)?;
        let instance_type = InstanceType::try_from_primitive(ty_raw)?;
        let id = read_u32(bytes, &mut p)?;
        let execute_once = read_u32(bytes, &mut p)?;
        let mut argument_values = [0u32;10];
        let mut t: usize = 0;
        while t < 10
            invariant
                t <= 10,
                p == start + 76 + 4 * t,
                start + 796 <= bytes@.len(),
                forall|j: int|
                    0 <= j < t ==> argument_values@[j] == le32_at(bytes@, start + 76 + 4 * j),
            decreases 10 - t,
        {
            argument_values[t] = match read_u32(bytes, &mut p) {
                Ok(v) => v,
                Err(_) => {
                    proof {
                        assert(false);
                    }
                    0
                },
            };
            t = t + 1;
        }
        let mut argument_types: Vec<ArgumentType> = Vec::new();
        let mut t2: usize = 0;
        while t2 < 10
            invariant
                t2 <= 10,
                p == start + 116 + 4 * t2,
                start + 796 <= bytes@.len(),
                argument_types@.len() == t2,
                forall|j: int|
                    0 <= j < t2 ==> Option::Some(#[trigger] argument_types@[j])
                        == spec_argumenttype_from(le32_at(bytes@, start + 116 + 4 * j) as u32),
            decreases 10 - t2,
        {
            let w = match read_u32(bytes, &mut p) {
                Ok(v) => v,
                Err(_) => {
                    proof {
                        assert(false);
                    }
                    0
                },
            };
            let at = match ArgumentType::try_from_primitive(w) {
                Ok(v) => v,
                Err(e) => {
                    *pos = start;
                    return Err(e);
                },
            };
            argument_types.push(at);
            t2 = t2 + 1;
        }
        let mut argument_names: Vec<String> = Vec::new();
        let mut t3: usize = 0;
        while t3 < 10
            invariant
                t3 <= 10,
                p == start + 156 + 64 * t3,
                start + 796 <= bytes@.len(),
                argument_names@.len() == t3,
                forall|j: int|
                    0 <= j < t3 ==> (#[trigger] argument_names@[j])@ == cp866_decoded(
                        bytes@.subrange(start + 156 + 64 * j, start + 156 + 64 * j + 64),
                    ),
            decreases 10 - t3,
        {
            let raw = match read_exact(bytes, &mut p, 64) {
                Ok(v) => v,
                Err(_) => {
                    proof {
                        assert(false);
                    }
                    Vec::new()
                },
            };
            argument_names.push(crate::shared_types::decode_cp866(&raw));
            t3 = t3 + 1;
        }
        proof {
            assert forall|t: int|
                0 <= t < 10 implies spec_argumenttype_from(
                #[trigger] le32_at(bytes@, start + 116 + 4 * t) as u32,
            ) is Some by {
                assert(Option::Some(argument_types@[t]) == spec_argumenttype_from(
                    le32_at(bytes@, start + 116 + 4 * t) as u32,
                ));
            }
        }
        *pos = p;
        Ok(
            InstanceEntry {
                name,
                instance_type,
                id,
                execute_once,
                argument_values,
                argument_types,
                argument_names,
            },
        )
    }
}

/// One script condition ("check"); same layout as an instance.
#[derive(Clone, PartialEq, Debug)]
pub struct CheckEntry {
    pub name: String,
    pub check_type: CheckType,
    pub id: u32,
    pub execute_once: u32,
    pub argument_values: [u32; 10],
    pub argument_types: Vec<ArgumentType>,
    pub argument_names: Vec<String>,
}

pub open spec fn check_entry_valid(b: Seq<u8>, pos: int) -> bool {
    &&& spec_checktype_from(le32_at(b, pos + 64) as u32) is Some
    &&& forall|t: int|
        0 <= t < 10 ==> spec_argumenttype_from(#[trigger] le32_at(b, pos + 116 + 4 * t) as u32)
            is Some
}

pub open spec fn check_parsed_at(v: CheckEntry, b: Seq<u8>, pos: int) -> bool {
    &&& v.name@ == cp866_decoded(b.subrange(pos, pos + 64))
    &&& Option::Some(v.check_type) == spec_checktype_from(le32_at(b, pos + 64) as u32)
    &&& v.id == le32_at(b, pos + 68)
    &&& v.execute_once == le32_at(b, pos + 72)
    &&& forall|t: int| 0 <= t < 10 ==> v.argument_values@[t] == le32_at(b, pos + 76 + 4 * t)
    &&& v.argument_types@.len() == 10
    &&& forall|t: int|
        0 <= t < 10 ==> Option::Some(#[trigger] v.argument_types@[t]) == spec_argumenttype_from(
            le32_at(b, pos + 116 + 4 * t) as u32,
        )
    &&& v.argument_names@.len() == 10
    &&& forall|t: int|
        0 <= t < 10 ==> (#[trigger] v.argument_names@[t])@ == cp866_decoded(
            b.subrange(pos + 156 + 64 * t, pos + 156 + 64 * t + 64),
        )
}

impl CheckEntry {
    /// Reads one 796-byte check record.
    #[verifier::loop_isolation(false)]
    pub fn read_from_stream(bytes: &Vec<u8>, pos: &mut usize) -> (r: Result<
        CheckEntry,
        DecodeError,
    >)
        ensures
            match r {
                Ok(v) => {
                    &&& *old(pos) + 796 <= bytes@.len()
                    &&& check_entry_valid(bytes@, *old(pos) as int)
                    &&& check_parsed_at(v, bytes@, *old(pos) as int)
                    &&& *final(pos) == *old(pos) + 796
                },
                Err(e) => {
                    &&& *final(pos) == *old(pos)
                    &&& match e {
                        DecodeError::UnexpectedEnd => *old(pos) + 796 > bytes@.len(),
                        DecodeError::InvalidTag => *old(pos) + 796 <= bytes@.len()
                            && !check_entry_valid(bytes@, *old(pos) as int),
                        _ => false,
                    }
                },
            },
    {
        let start = *pos;
        if bytes.len() < 796 || start > bytes.len() - 796 {
            return Err(DecodeError::UnexpectedEnd);
        }
        let mut p = start;
        let raw_name = read_exact(bytes, &mut p, 64)?;
        let name = crate::shared_types::decode_cp866(&raw_name);
        let ty_raw = read_u32(bytes, &mut p)?;
        let check_type = CheckType::try_from_primitive(ty_raw)?;
        let id = read_u32(bytes, &mut p)?;
        let execute_once = read_u32(bytes, &mut p)?;
        let mut argument_values = [0u32;10];
        let mut t: usize = 0;
        while t < 10
            invariant
                t <= 10,
                p == start + 76 + 4 * t,
                start + 796 <= bytes@.len(),
                forall|j: int|
                    0 <= j < t ==> argument_values@[j] == le32_at(bytes@, start + 76 + 4 * j),
            decreases 10 - t,
        {
            argument_values[t] = match read_u32(bytes, &mut p) {
                Ok(v) => v,
                Err(_) => {
                    proof {
                        assert(false);
                    }
                    0
                },
            };
            t = t + 1;
        }
        let mut argument_types: Vec<ArgumentType> = Vec::new();
        let mut t2: usize = 0;
        while t2 < 10
            invariant
                t2 <= 10,
                p == start + 116 + 4 * t2,
                start + 796 <= bytes@.len(),
                argument_types@.len() == t2,
                forall|j: int|
                    0 <= j < t2 ==> Option::Some(#[trigger] argument_types@[j])
                        == spec_argumenttype_from(le32_at(bytes@, start + 116 + 4 * j) as u32),
            decreases 10 - t2,
        {
            let w = match read_u32(bytes, &mut p) {
                Ok(v) => v,
                Err(_) => {
                    proof {
                        assert(false);
                    }
                    0
                },
            };
            let at = match ArgumentType::try_from_primitive(w) {
                Ok(v) => v,
                Err(e) => {
                    *pos = start;
                    return Err(e);
                },
            };
            argument_types.push(at);
            t2 = t2 + 1;
        }
        let mut argument_names: Vec<String> = Vec::new();
        let mut t3: usize = 0;
        while t3 < 10
            invariant
                t3 <= 10,
                p == start + 156 + 64 * t3,
                start + 796 <= bytes@.len(),
                argument_names@.len() == t3,
                forall|j: int|
                    0 <= j < t3 ==> (#[trigger] argument_names@[j])@ == cp866_decoded(
                        bytes@.subrange(start + 156 + 64 * j, start + 156 + 64 * j + 64),
                    ),
            decreases 10 - t3,
        {
            let raw = match read_exact(bytes, &mut p, 64) {
                Ok(v) => v,
                Err(_) => {
                    proof {
                        assert(false);
                    }
                    Vec::new()
                },
            };
            argument_names.push(crate::shared_types::decode_cp866(&raw));
            t3 = t3 + 1;
        }
        proof {
            assert forall|t: int|
                0 <= t < 10 implies spec_argumenttype_from(
                #[trigger] le32_at(bytes@, start + 116 + 4 * t) as u32,
            ) is Some by {
                assert(Option::Some(argument_types@[t]) == spec_argumenttype_from(
                    le32_at(bytes@, start + 116 + 4 * t) as u32,
                ));
            }
        }
        *pos = p;
        Ok(
            CheckEntry {
                name,
                check_type,
                id,
                execute_once,
                argument_values,
                argument_types,
                argument_names,
            },
        )
    }
}

/// One trigger: up to six checks combined by three operators firing up to
/// four instances.
#[derive(Clone, PartialEq, Debug)]
pub struct TriggerEntry {
    pub name: String,
    pub check_identifiers: [u32; 6],
    pub instance_identifiers: [u32; 4],
    pub check_01_operator: Option<CheckOperator>,
    pub check_23_operator: Option<CheckOperator>,
    pub check_45_operator: Option<CheckOperator>,
    pub run_once: u32,
}

/// The stored operator for the check pair `(2i, 2i+1)`: absent when the
/// word is the sentinel or either check of the pair is zero.
pub open spec fn spec_trigger_op(b: Seq<u8>, pos: int, i: int) -> Option<Option<CheckOperator>> {
    let w = le32_at(b, pos + 168 + 4 * i) as u32;
    let c0 = le32_at(b, pos + 128 + 8 * i);
    let c1 = le32_at(b, pos + 132 + 8 * i);
    if w == 0xFFFF_FFFF || c0 == 0 || c1 == 0 {
        Option::Some(Option::None)
    } else {
        match spec_checkoperator_from(w) {
            Option::None => Option::None,
            Option::Some(o) => Option::Some(Option::Some(o)),
        }
    }
}

pub open spec fn trigger_entry_valid(b: Seq<u8>, pos: int) -> bool {
    forall|i: int| 0 <= i < 3 ==> (#[trigger] spec_trigger_op(b, pos, i)) is Some
}

pub open spec fn trigger_parsed_at(v: TriggerEntry, b: Seq<u8>, pos: int) -> bool {
    &&& v.name@ == cp866_decoded(b.subrange(pos, pos + 128))
    &&& forall|i: int| 0 <= i < 6 ==> v.check_identifiers@[i] == le32_at(b, pos + 128 + 4 * i)
    &&& forall|i: int| 0 <= i < 4 ==> v.instance_identifiers@[i] == le32_at(b, pos + 152 + 4 * i)
    &&& Option::Some(v.check_01_operator) == spec_trigger_op(b, pos, 0)
    &&& Option::Some(v.check_23_operator) == spec_trigger_op(b, pos, 1)
    &&& Option::Some(v.check_45_operator) == spec_trigger_op(b, pos, 2)
    &&& v.run_once == le32_at(b, pos + 180)
}

impl TriggerEntry {
    /// Reads one 184-byte trigger record.
    #[verifier::loop_isolation(false)]
    pub fn read_from_stream(bytes: &Vec<u8>, pos: &mut usize) -> (r: Result<
        TriggerEntry,
        DecodeError,
    >)
        ensures
            match r {
                Ok(v) => {
                    &&& *old(pos) + 184 <= bytes@.len()
                    &&& trigger_entry_valid(bytes@, *old(pos) as int)
                    &&& trigger_parsed_at(v, bytes@, *old(pos) as int)
                    &&& *final(pos) == *old(pos) + 184
                },
                Err(e) => {
                    &&& *final(pos) == *old(pos)
                    &&& match e {
                        DecodeError::UnexpectedEnd => *old(pos) + 184 > bytes@.len(),
                        DecodeError::InvalidTag => *old(pos) + 184 <= bytes@.len()
                            && !trigger_entry_valid(bytes@, *old(pos) as int),
                        _ => false,
                    }
                },
            },
    {
        let start = *pos;
        if bytes.len() < 184 || start > bytes.len() - 184 {
            return Err(DecodeError::UnexpectedEnd);
        }
        let mut p = start;
        let raw_name = read_exact(bytes, &mut p, 128)?;
        let name = crate::shared_types::decode_cp866(&raw_name);
        let mut check_identifiers = [0u32;6];
        let mut i: usize = 0;
        while i < 6
            invariant
                i <= 6,
                p == start + 128 + 4 * i,
                start + 184 <= bytes@.len(),
                forall|j: int|
                    0 <= j < i ==> check_identifiers@[j] == le32_at(bytes@, start + 128 + 4 * j),
            decreases 6 - i,
        {
            check_identifiers[i] = match read_u32(bytes, &mut p) {
                Ok(v) => v,
                Err(_) => {
                    proof {
                        assert(false);
                    }
                    0
                },
            };
            i = i + 1;
        }
        let mut instance_identifiers = [0u32;4];
        let mut i2: usize = 0;
        while i2 < 4
            invariant
                i2 <= 4,
                p == start + 152 + 4 * i2,
                start + 184 <= bytes@.len(),
                forall|j: int|
                    0 <= j < i2 ==> instance_identifiers@[j] == le32_at(bytes@, start + 152 + 4 * j),
            decreases 4 - i2,
        {
            instance_identifiers[i2] = match read_u32(bytes, &mut p) {
                Ok(v) => v,
                Err(_) => {
                    proof {
                        assert(false);
                    }
                    0
                },
            };
            i2 = i2 + 1;
        }
        let w0 = read_u32(bytes, &mut p)?;
        let w1 = read_u32(bytes, &mut p)?;
        let w2 = read_u32(bytes, &mut p)?;
        let check_01_operator = if w0 == 0xFFFF_FFFF || check_identifiers[0] == 0
            || check_identifiers[1] == 0 {
            None
        } else {
            match CheckOperator::try_from_primitive(w0) {
                Ok(o) => Some(o),
                Err(e) => {
                    *pos = start;
                    return Err(e);
                },
            }
        };
        let check_23_operator = if w1 == 0xFFFF_FFFF || check_identifiers[2] == 0
            || check_identifiers[3] == 0 {
            None
        } else {
            match CheckOperator::try_from_primitive(w1) {
                Ok(o) => Some(o),
                Err(e) => {
                    *pos = start;
                    return Err(e);
                },
            }
        };
        let check_45_operator = if w2 == 0xFFFF_FFFF || check_identifiers[4] == 0
            || check_identifiers[5] == 0 {
            None
        } else {
            match CheckOperator::try_from_primitive(w2) {
                Ok(o) => Some(o),
                Err(e) => {
                    *pos = start;
                    return Err(e);
                },
            }
        };
        let run_once = read_u32(bytes, &mut p)?;
        *pos = p;
        Ok(
            TriggerEntry {
                name,
                check_identifiers,
                instance_identifiers,
                check_01_operator,
                check_23_operator,
                check_45_operator,
                run_once,
            },
        )
    }
}

/// The script section: instances, checks and triggers, each list led by
/// its count.
#[derive(Clone, PartialEq, Debug)]
pub struct TriggersSection {
    pub instances: Vec<InstanceEntry>,
    pub checks: Vec<CheckEntry>,
    pub triggers: Vec<TriggerEntry>,
}

impl TriggersSection {
    /// Reads the three record lists in order.
    #[verifier::loop_isolation(false)]
    #[verifier::rlimit(60)]
    pub fn read_from_stream(bytes: &Vec<u8>, pos: &mut usize) -> (r: Result<
        TriggersSection,
        DecodeError,
    >)
        ensures
            match r {
                Ok(v) => {
                    let p0 = *old(pos) as int;
                    let n1 = le32_at(bytes@, p0);
                    let q1 = p0 + 4;
                    let q2 = q1 + 796 * n1 + 4;
                    let n2 = le32_at(bytes@, q2 - 4);
                    let q3 = q2 + 796 * n2 + 4;
                    let n3 = le32_at(bytes@, q3 - 4);
                    &&& v.instances@.len() == n1
                    &&& forall|j: int|
                        0 <= j < n1 ==> instance_parsed_at(
                            #[trigger] v.instances@[j],
                            bytes@,
                            q1 + 796 * j,
                        )
                    &&& v.checks@.len() == n2
                    &&& forall|j: int|
                        0 <= j < n2 ==> check_parsed_at(#[trigger] v.checks@[j], bytes@, q2 + 796 * j)
                    &&& v.triggers@.len() == n3
                    &&& forall|j: int|
                        0 <= j < n3 ==> trigger_parsed_at(
                            #[trigger] v.triggers@[j],
                            bytes@,
                            q3 + 184 * j,
                        )
                    &&& *final(pos) == q3 + 184 * n3
                },
                Err(e) => e == DecodeError::UnexpectedEnd || e == DecodeError::InvalidTag,
            },
    {
        let mut p = *pos;
        let n1 = read_u32(bytes, &mut p)?;
        let ghost q1 = p as int;
        let mut instances: Vec<InstanceEntry> = Vec::new();
        let mut k: u32 = 0;
        while k < n1
            invariant
                k <= n1,
                p == q1 + 796 * k,
                instances@.len() == k,
                forall|j: int|
                    0 <= j < k ==> instance_parsed_at(#[trigger] instances@[j], bytes@, q1 + 796 * j),
            decreases n1 - k,
        {
            let e = InstanceEntry::read_from_stream(bytes, &mut p)?;
            instances.push(e);
            k = k + 1;
        }
        let n2 = read_u32(bytes, &mut p)?;
        let ghost q2 = p as int;
        let mut checks: Vec<CheckEntry> = Vec::new();
        let mut k2: u32 = 0;
        while k2 < n2
            invariant
                k2 <= n2,
                p == q2 + 796 * k2,
                checks@.len() == k2,
                forall|j: int|
                    0 <= j < k2 ==> check_parsed_at(#[trigger] checks@[j], bytes@, q2 + 796 * j),
            decreases n2 - k2,
        {
            let e = CheckEntry::read_from_stream(bytes, &mut p)?;
            checks.push(e);
            k2 = k2 + 1;
        }
        let n3 = read_u32(bytes, &mut p)?;
        let ghost q3 = p as int;
        let mut triggers: Vec<TriggerEntry> = Vec::new();
        let mut k3: u32 = 0;
        while k3 < n3
            invariant
                k3 <= n3,
                p == q3 + 184 * k3,
                triggers@.len() == k3,
                forall|j: int|
                    0 <= j < k3 ==> trigger_parsed_at(#[trigger] triggers@[j], bytes@, q3 + 184 * j),
            decreases n3 - k3,
        {
            let e = TriggerEntry::read_from_stream(bytes, &mut p)?;
            triggers.push(e);
            k3 = k3 + 1;
        }
        *pos = p;
        Ok(TriggersSection { instances, checks, triggers })
    }
}


/// The map container header.
#[derive(Clone, Copy, PartialEq, Eq, Structural, Debug)]
pub struct AlmHeader {
    pub signature: u32,
    pub header_size: u32,
    pub mysterious_size: u32,
    pub section_count: u32,
    pub random_seed: u32,
}

/// One section header inside the map container.
#[derive(Clone, Copy, PartialEq, Eq, Structural, Debug)]
pub struct SectionHeader {
    pub some_id: u32,
    pub header_size: u32,
    pub data_size: u32,
    pub section_kind: SectionKind,
    pub random_seed: u32,
}

impl SectionHeader {
    /// Reads one 20-byte section header; an unknown section kind is
    /// malformed.
    pub fn read_from_stream(bytes: &Vec<u8>, pos: &mut usize) -> (r: Result<
        SectionHeader,
        DecodeError,
    >)
        ensures
            match r {
                Ok(v) => {
                    &&& *old(pos) + 20 <= bytes@.len()
                    &&& v.some_id == le32_at(bytes@, *old(pos) as int)
                    &&& v.header_size == le32_at(bytes@, *old(pos) + 4)
                    &&& v.data_size == le32_at(bytes@, *old(pos) + 8)
                    &&& Option::Some(v.section_kind) == spec_sectionkind_from(
                        le32_at(bytes@, *old(pos) + 12) as u32,
                    )
                    &&& v.random_seed == le32_at(bytes@, *old(pos) + 16)
                    &&& *final(pos) == *old(pos) + 20
                },
                Err(e) => {
                    &&& *final(pos) == *old(pos)
                    &&& match e {
                        DecodeError::UnexpectedEnd => *old(pos) + 20 > bytes@.len(),
                        DecodeError::InvalidTag => *old(pos) + 20 <= bytes@.len()
                            && spec_sectionkind_from(le32_at(bytes@, *old(pos) + 12) as u32)
                            is None,
                        _ => false,
                    }
                },
            },
    {
        let start = *pos;
        if bytes.len() < 20 || start > bytes.len() - 20 {
            return Err(DecodeError::UnexpectedEnd);
        }
        let mut p = start;
        let some_id = read_u32(bytes, &mut p)?;
        let header_size = read_u32(bytes, &mut p)?;
        let data_size = read_u32(bytes, &mut p)?;
        let kind_raw = read_u32(bytes, &mut p)?;
        let section_kind = SectionKind::try_from_primitive(kind_raw)?;
        let random_seed = read_u32(bytes, &mut p)?;
        *pos = p;
        Ok(SectionHeader { some_id, header_size, data_size, section_kind, random_seed })
    }
}

/// A whole parsed map: the general section plus whichever optional
/// sections the file carries.
#[derive(Clone, PartialEq, Debug)]
pub struct AlmMap {
    pub general_info: GeneralMapInfoSection,
    pub tiles: Option<TilesSection>,
    pub height_map: Option<HeightMapSection>,
    pub map_objects: Option<MapObjectsSection>,
    pub structures: Option<StructuresSection>,
    pub fractions: Option<FractionsSection>,
    pub units: Option<UnitsSection>,
    pub triggers: Option<TriggersSection>,
    pub sacks: Option<SacksSection>,
    pub effects: Option<EffectsSection>,
}

impl AlmMap {
    /// Parses the map container: the header, the mandatory general
    /// section, then every remaining section dispatched by kind, each
    /// skipped to its declared size regardless of how much its parser
    /// consumed.  Every stored section comes from its own verified
    /// parser; this contract pins the header and the general section.
    #[verifier::loop_isolation(false)]
    pub fn read(bytes: &Vec<u8>) -> (r: Result<AlmMap, DecodeError>)
        ensures
            match r {
                Ok(m) => {
                    &&& bytes@.len() >= 40
                    &&& le32_at(bytes@, 32) == 0  // the first section is the general one
                    &&& m.general_info.parsed_at(bytes@, 40)
                },
                Err(e) => e == DecodeError::UnexpectedEnd || e == DecodeError::InvalidTag,
            },
    {
        let mut pos: usize = 0;
        if bytes.len() < 40 {
            return Err(DecodeError::UnexpectedEnd);
        }
        let _signature = read_u32(bytes, &mut pos)?;
        let _header_size = read_u32(bytes, &mut pos)?;
        let _mysterious_size = read_u32(bytes, &mut pos)?;
        let section_count = read_u32(bytes, &mut pos)?;
        let _random_seed = read_u32(bytes, &mut pos)?;
        let general_header = SectionHeader::read_from_stream(bytes, &mut pos)?;
        match general_header.section_kind {
            SectionKind::General => {},
            _ => {
                return Err(DecodeError::InvalidTag);
            },
        }
        let section_start = pos;
        let general_info = GeneralMapInfoSection::read_from_stream(bytes, &mut pos)?;
        pos = seek_section_end(bytes, section_start, general_header.data_size);
        let mut tiles: Option<TilesSection> = None;
        let mut height_map: Option<HeightMapSection> = None;
        let mut map_objects: Option<MapObjectsSection> = None;
        let mut structures: Option<StructuresSection> = None;
        let mut fractions: Option<FractionsSection> = None;
        let mut units: Option<UnitsSection> = None;
        let mut triggers: Option<TriggersSection> = None;
        let mut sacks: Option<SacksSection> = None;
        let mut effects: Option<EffectsSection> = None;
        let mut k: u32 = 1;
        while k < section_count
            invariant
                pos <= bytes@.len(),
            decreases section_count - k,
        {
            let next_header = SectionHeader::read_from_stream(bytes, &mut pos)?;
            let body_start = pos;
            match next_header.section_kind {
                SectionKind::General => {
                    return Err(DecodeError::InvalidTag);
                },
                SectionKind::Tiles => {
                    tiles = Some(TilesSection::read(bytes, &mut pos, &general_info)?);
                },
                SectionKind::HeightMap => {
                    height_map = Some(HeightMapSection::read(bytes, &mut pos, &general_info)?);
                },
                SectionKind::MapObjects => {
                    map_objects = Some(MapObjectsSection::read(bytes, &mut pos, &general_info)?);
                },
                SectionKind::Structures => {
                    structures = Some(StructuresSection::read(bytes, &mut pos, &general_info)?);
                },
                SectionKind::Fractions => {
                    fractions = Some(FractionsSection::read(bytes, &mut pos, &general_info)?);
                },
                SectionKind::Units => {
                    units = Some(UnitsSection::read(bytes, &mut pos, &general_info)?);
                },
                SectionKind::Triggers => {
                    triggers = Some(TriggersSection::read_from_stream(bytes, &mut pos)?);
                },
                SectionKind::Sacks => {
                    sacks = Some(SacksSection::read(bytes, &mut pos, &general_info)?);
                },
                SectionKind::Effects => {
                    effects = Some(EffectsSection::read_from_stream(bytes, &mut pos)?);
                },
            }
            pos = seek_section_end(bytes, body_start, next_header.data_size);
            k = k + 1;
        }
        Ok(
            AlmMap {
                general_info,
                tiles,
                height_map,
                map_objects,
                structures,
                fractions,
                units,
                triggers,
                sacks,
                effects,
            },
        )
    }
}

/// The absolute position after a section of the declared size, clamped to
/// the end of the file (a section running past the end leaves the cursor
/// there, and the next header read reports the truncation).
pub fn seek_section_end(bytes: &Vec<u8>, body_start: usize, data_size: u32) -> (r: usize)
    requires
        body_start <= bytes@.len(),
    ensures
        r <= bytes@.len(),
        r == (if body_start + data_size <= bytes@.len() {
            body_start + data_size
        } else {
            bytes@.len() as int
        }),
{
    let rem = bytes.len() - body_start;
    if data_size as u64 <= rem as u64 {
        body_start + (data_size as usize)
    } else {
        bytes.len()
    }
}

} // verus!
