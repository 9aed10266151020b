use vstd::prelude::*;
use crate::byte_stream::{le16_at, le32_at, le64_at, read_i32, read_u32, read_u64, read_u8, skip_bytes};
use crate::errors::DecodeError;
use crate::shared_types::{cp866_decoded, spec_nul_end, CP866String};

verus! {

/// Index of the first non-zero byte at or after `pos` (records in these
/// tables are separated by runs of padding zeroes).
pub open spec fn spec_skip_zeros(b: Seq<u8>, pos: int) -> int
    decreases b.len() - pos,
{
    if pos < 0 || pos >= b.len() {
        b.len() as int
    } else if b[pos] != 0 {
        pos
    } else {
        spec_skip_zeros(b, pos + 1)
    }
}

/// Advances the cursor past padding zeroes.
#[verifier::loop_isolation(false)]
pub fn skip_zeros(bytes: &Vec<u8>, pos: &mut usize)
    requires
        *old(pos) <= bytes@.len(),
    ensures
        *final(pos) == spec_skip_zeros(bytes@, *old(pos) as int),
        *final(pos) <= bytes@.len(),
{
    while *pos < bytes.len() && bytes[*pos] == 0
        invariant
            *pos <= bytes@.len(),
            spec_skip_zeros(bytes@, *pos as int) == spec_skip_zeros(bytes@, *old(pos) as int),
        decreases bytes@.len() - *pos,
    {
        *pos = *pos + 1;
    }
}

/// Names what `regex::Regex::is_match` decides for the fixed unit-name
/// pattern of these tables: whether the text looks like a unit identifier
/// (`PC_...`, `NPC7_...`, `Man..._...` and so on).
pub uninterp spec fn matches_unit_name_pattern(s: Seq<char>) -> bool;

/// Relies on `regex::Regex::is_match` with the fixed unit-name pattern;
/// the result depends on the text alone.
#[verifier::external_body]
fn is_unit_name(s: &String) -> (r: bool)
    ensures
        r == matches_unit_name_pattern(s@),
{
    match regex::Regex::new("^(?:PC|NPC|NPC\\d{1,3}|.|M\\d{1,3}|Man.*)_.*") {
        Ok(re) => re.is_match(s),
        Err(_) => false,
    }
}

/// A fixed all-integer stat record.
#[derive(Clone, Copy, PartialEq, Eq, Structural, Debug)]
pub struct ItemRecord {
    pub shape: i32,
    pub material: i32,
    pub price: i32,
    pub weight: i32,
    pub slot: i32,
    pub attack_type: i32,
    pub physical_min: i32,
    pub physical_max: i32,
    pub to_hit: i32,
    pub defence: i32,
    pub absorption: i32,
    pub range: i32,
    pub charge: i32,
    pub relax: i32,
    pub two_handed: i32,
    pub suitable_for: i32,
    pub other_parameter: i32,
    pub mysterious_field0: i32,
    pub mysterious_field1: i32,
    pub mysterious_field2: i32,
}

impl ItemRecord {
    pub open spec fn parsed_at(self, b: Seq<u8>, pos: int) -> bool {
        &&& self.shape == (le32_at(b, pos + 0) as u32) as i32
        &&& self.material == (le32_at(b, pos + 4) as u32) as i32
        &&& self.price == (le32_at(b, pos + 8) as u32) as i32
        &&& self.weight == (le32_at(b, pos + 12) as u32) as i32
        &&& self.slot == (le32_at(b, pos + 16) as u32) as i32
        &&& self.attack_type == (le32_at(b, pos + 20) as u32) as i32
        &&& self.physical_min == (le32_at(b, pos + 24) as u32) as i32
        &&& self.physical_max == (le32_at(b, pos + 28) as u32) as i32
        &&& self.to_hit == (le32_at(b, pos + 32) as u32) as i32
        &&& self.defence == (le32_at(b, pos + 36) as u32) as i32
        &&& self.absorption == (le32_at(b, pos + 40) as u32) as i32
        &&& self.range == (le32_at(b, pos + 44) as u32) as i32
        &&& self.charge == (le32_at(b, pos + 48) as u32) as i32
        &&& self.relax == (le32_at(b, pos + 52) as u32) as i32
        &&& self.two_handed == (le32_at(b, pos + 56) as u32) as i32
        &&& self.suitable_for == (le32_at(b, pos + 60) as u32) as i32
        &&& self.other_parameter == (le32_at(b, pos + 64) as u32) as i32
        &&& self.mysterious_field0 == (le32_at(b, pos + 68) as u32) as i32
        &&& self.mysterious_field1 == (le32_at(b, pos + 72) as u32) as i32
        &&& self.mysterious_field2 == (le32_at(b, pos + 76) as u32) as i32
    }

    /// Reads the 80-byte record.
    pub fn read_from_stream(bytes: &Vec<u8>, pos: &mut usize) -> (r: Result<ItemRecord, DecodeError>)
        ensures
            match r {
                Ok(v) => *old(pos) + 80 <= bytes@.len() && v.parsed_at(bytes@, *old(pos) as int)
                    && *final(pos) == *old(pos) + 80,
                Err(e) => e == DecodeError::UnexpectedEnd && *old(pos) + 80 > bytes@.len()
                    && *final(pos) == *old(pos),
            },
    {
        let start = *pos;
        if bytes.len() < 80 || start > bytes.len() - 80 {
            return Err(DecodeError::UnexpectedEnd);
        }
        let mut p = start;
        let shape = read_i32(bytes, &mut p)?;
        let material = read_i32(bytes, &mut p)?;
        let price = read_i32(bytes, &mut p)?;
        let weight = read_i32(bytes, &mut p)?;
        let slot = read_i32(bytes, &mut p)?;
        let attack_type = read_i32(bytes, &mut p)?;
        let physical_min = read_i32(bytes, &mut p)?;
        let physical_max = read_i32(bytes, &mut p)?;
        let to_hit = read_i32(bytes, &mut p)?;
        let defence = read_i32(bytes, &mut p)?;
        let absorption = read_i32(bytes, &mut p)?;
        let range = read_i32(bytes, &mut p)?;
        let charge = read_i32(bytes, &mut p)?;
        let relax = read_i32(bytes, &mut p)?;
        let two_handed = read_i32(bytes, &mut p)?;
        let suitable_for = read_i32(bytes, &mut p)?;
        let other_parameter = read_i32(bytes, &mut p)?;
        let mysterious_field0 = read_i32(bytes, &mut p)?;
        let mysterious_field1 = read_i32(bytes, &mut p)?;
        let mysterious_field2 = read_i32(bytes, &mut p)?;
        *pos = p;
        Ok(ItemRecord { shape, material, price, weight, slot, attack_type, physical_min, physical_max, to_hit, defence, absorption, range, charge, relax, two_handed, suitable_for, other_parameter, mysterious_field0, mysterious_field1, mysterious_field2 })
    }
}

/// A fixed all-integer stat record.
#[derive(Clone, Copy, PartialEq, Eq, Structural, Debug)]
pub struct ParameterRecord {
    pub cost_mp: i32,
    pub affect_min: i32,
    pub affect_max: i32,
    pub usable_by: i32,
    pub in_weapon: i32,
    pub in_shield: i32,
    pub nop1: i32,
    pub in_ring: i32,
    pub in_amulet: i32,
    pub in_helm: i32,
    pub in_mail: i32,
    pub in_cuirass: i32,
    pub in_bracers: i32,
    pub in_gauntlets: i32,
    pub nop2: i32,
    pub in_boots: i32,
    pub in_weapon2: i32,
    pub nop3: i32,
    pub nop4: i32,
    pub in_ring2: i32,
    pub in_amulet2: i32,
    pub in_hat: i32,
    pub in_robe: i32,
    pub in_cloak: i32,
    pub nop5: i32,
    pub in_gloves: i32,
    pub nop6: i32,
    pub in_shoes: i32,
}

impl ParameterRecord {
    pub open spec fn parsed_at(self, b: Seq<u8>, pos: int) -> bool {
        &&& self.cost_mp == (le32_at(b, pos + 0) as u32) as i32
        &&& self.affect_min == (le32_at(b, pos + 4) as u32) as i32
        &&& self.affect_max == (le32_at(b, pos + 8) as u32) as i32
        &&& self.usable_by == (le32_at(b, pos + 12) as u32) as i32
        &&& self.in_weapon == (le32_at(b, pos + 16) as u32) as i32
        &&& self.in_shield == (le32_at(b, pos + 20) as u32) as i32
        &&& self.nop1 == (le32_at(b, pos + 24) as u32) as i32
        &&& self.in_ring == (le32_at(b, pos + 28) as u32) as i32
        &&& self.in_amulet == (le32_at(b, pos + 32) as u32) as i32
        &&& self.in_helm == (le32_at(b, pos + 36) as u32) as i32
        &&& self.in_mail == (le32_at(b, pos + 40) as u32) as i32
        &&& self.in_cuirass == (le32_at(b, pos + 44) as u32) as i32
        &&& self.in_bracers == (le32_at(b, pos + 48) as u32) as i32
        &&& self.in_gauntlets == (le32_at(b, pos + 52) as u32) as i32
        &&& self.nop2 == (le32_at(b, pos + 56) as u32) as i32
        &&& self.in_boots == (le32_at(b, pos + 60) as u32) as i32
        &&& self.in_weapon2 == (le32_at(b, pos + 64) as u32) as i32
        &&& self.nop3 == (le32_at(b, pos + 68) as u32) as i32
        &&& self.nop4 == (le32_at(b, pos + 72) as u32) as i32
        &&& self.in_ring2 == (le32_at(b, pos + 76) as u32) as i32
        &&& self.in_amulet2 == (le32_at(b, pos + 80) as u32) as i32
        &&& self.in_hat == (le32_at(b, pos + 84) as u32) as i32
        &&& self.in_robe == (le32_at(b, pos + 88) as u32) as i32
        &&& self.in_cloak == (le32_at(b, pos + 92) as u32) as i32
        &&& self.nop5 == (le32_at(b, pos + 96) as u32) as i32
        &&& self.in_gloves == (le32_at(b, pos + 100) as u32) as i32
        &&& self.nop6 == (le32_at(b, pos + 104) as u32) as i32
        &&& self.in_shoes == (le32_at(b, pos + 108) as u32) as i32
    }

    /// Reads the 112-byte record.
    pub fn read_from_stream(bytes: &Vec<u8>, pos: &mut usize) -> (r: Result<ParameterRecord, DecodeError>)
        ensures
            match r {
                Ok(v) => *old(pos) + 112 <= bytes@.len() && v.parsed_at(bytes@, *old(pos) as int)
                    && *final(pos) == *old(pos) + 112,
                Err(e) => e == DecodeError::UnexpectedEnd && *old(pos) + 112 > bytes@.len()
                    && *final(pos) == *old(pos),
            },
    {
        let start = *pos;
        if bytes.len() < 112 || start > bytes.len() - 112 {
            return Err(DecodeError::UnexpectedEnd);
        }
        let mut p = start;
        let cost_mp = read_i32(bytes, &mut p)?;
        let affect_min = read_i32(bytes, &mut p)?;
        let affect_max = read_i32(bytes, &mut p)?;
        let usable_by = read_i32(bytes, &mut p)?;
        let in_weapon = read_i32(bytes, &mut p)?;
        let in_shield = read_i32(bytes, &mut p)?;
        let nop1 = read_i32(bytes, &mut p)?;
        let in_ring = read_i32(bytes, &mut p)?;
        let in_amulet = read_i32(bytes, &mut p)?;
        let in_helm = read_i32(bytes, &mut p)?;
        let in_mail = read_i32(bytes, &mut p)?;
        let in_cuirass = read_i32(bytes, &mut p)?;
        let in_bracers = read_i32(bytes, &mut p)?;
        let in_gauntlets = read_i32(bytes, &mut p)?;
        let nop2 = read_i32(bytes, &mut p)?;
        let in_boots = read_i32(bytes, &mut p)?;
        let in_weapon2 = read_i32(bytes, &mut p)?;
        let nop3 = read_i32(bytes, &mut p)?;
        let nop4 = read_i32(bytes, &mut p)?;
        let in_ring2 = read_i32(bytes, &mut p)?;
        let in_amulet2 = read_i32(bytes, &mut p)?;
        let in_hat = read_i32(bytes, &mut p)?;
        let in_robe = read_i32(bytes, &mut p)?;
        let in_cloak = read_i32(bytes, &mut p)?;
        let nop5 = read_i32(bytes, &mut p)?;
        let in_gloves = read_i32(bytes, &mut p)?;
        let nop6 = read_i32(bytes, &mut p)?;
        let in_shoes = read_i32(bytes, &mut p)?;
        *pos = p;
        Ok(ParameterRecord { cost_mp, affect_min, affect_max, usable_by, in_weapon, in_shield, nop1, in_ring, in_amulet, in_helm, in_mail, in_cuirass, in_bracers, in_gauntlets, nop2, in_boots, in_weapon2, nop3, nop4, in_ring2, in_amulet2, in_hat, in_robe, in_cloak, nop5, in_gloves, nop6, in_shoes })
    }
}

/// A fixed all-integer stat record.
#[derive(Clone, Copy, PartialEq, Eq, Structural, Debug)]
pub struct MagicItemRecord {
    pub price: i32,
    pub weight: i32,
}

impl MagicItemRecord {
    pub open spec fn parsed_at(self, b: Seq<u8>, pos: int) -> bool {
        &&& self.price == (le32_at(b, pos + 0) as u32) as i32
        &&& self.weight == (le32_at(b, pos + 4) as u32) as i32
    }

    /// Reads the 8-byte record.
    pub fn read_from_stream(bytes: &Vec<u8>, pos: &mut usize) -> (r: Result<MagicItemRecord, DecodeError>)
        ensures
            match r {
                Ok(v) => *old(pos) + 8 <= bytes@.len() && v.parsed_at(bytes@, *old(pos) as int)
                    && *final(pos) == *old(pos) + 8,
                Err(e) => e == DecodeError::UnexpectedEnd && *old(pos) + 8 > bytes@.len()
                    && *final(pos) == *old(pos),
            },
    {
        let start = *pos;
        if bytes.len() < 8 || start > bytes.len() - 8 {
            return Err(DecodeError::UnexpectedEnd);
        }
        let mut p = start;
        let price = read_i32(bytes, &mut p)?;
        let weight = read_i32(bytes, &mut p)?;
        *pos = p;
        Ok(MagicItemRecord { price, weight })
    }
}

/// A fixed all-integer stat record.
#[derive(Clone, Copy, PartialEq, Eq, Structural, Debug)]
pub struct SpellRecord {
    pub complication_level: i32,
    pub mana_cost: i32,
    pub sphere: i32,
    pub item: i32,
    pub spell_target: i32,
    pub delivery_system: i32,
    pub max_range: i32,
    pub spell_effect_speed: i32,
    pub distribution_system: i32,
    pub radius: i32,
    pub area_effect_affect: i32,
    pub area_effect_duration: i32,
    pub area_effect_frequency: i32,
    pub apply_on_unit_method: i32,
    pub spell_duration: i32,
    pub spell_frequency: i32,
    pub damage_min: i32,
    pub damage_max: i32,
    pub defensive: i32,
    pub skill_offset: i32,
    pub scroll_cost: i32,
    pub book_cost: i32,
}

impl SpellRecord {
    pub open spec fn parsed_at(self, b: Seq<u8>, pos: int) -> bool {
        &&& self.complication_level == (le32_at(b, pos + 0) as u32) as i32
        &&& self.mana_cost == (le32_at(b, pos + 4) as u32) as i32
        &&& self.sphere == (le32_at(b, pos + 8) as u32) as i32
        &&& self.item == (le32_at(b, pos + 12) as u32) as i32
        &&& self.spell_target == (le32_at(b, pos + 16) as u32) as i32
        &&& self.delivery_system == (le32_at(b, pos + 20) as u32) as i32
        &&& self.max_range == (le32_at(b, pos + 24) as u32) as i32
        &&& self.spell_effect_speed == (le32_at(b, pos + 28) as u32) as i32
        &&& self.distribution_system == (le32_at(b, pos + 32) as u32) as i32
        &&& self.radius == (le32_at(b, pos + 36) as u32) as i32
        &&& self.area_effect_affect == (le32_at(b, pos + 40) as u32) as i32
        &&& self.area_effect_duration == (le32_at(b, pos + 44) as u32) as i32
        &&& self.area_effect_frequency == (le32_at(b, pos + 48) as u32) as i32
        &&& self.apply_on_unit_method == (le32_at(b, pos + 52) as u32) as i32
        &&& self.spell_duration == (le32_at(b, pos + 56) as u32) as i32
        &&& self.spell_frequency == (le32_at(b, pos + 60) as u32) as i32
        &&& self.damage_min == (le32_at(b, pos + 64) as u32) as i32
        &&& self.damage_max == (le32_at(b, pos + 68) as u32) as i32
        &&& self.defensive == (le32_at(b, pos + 72) as u32) as i32
        &&& self.skill_offset == (le32_at(b, pos + 76) as u32) as i32
        &&& self.scroll_cost == (le32_at(b, pos + 80) as u32) as i32
        &&& self.book_cost == (le32_at(b, pos + 84) as u32) as i32
    }

    /// Reads the 88-byte record.
    pub fn read_from_stream(bytes: &Vec<u8>, pos: &mut usize) -> (r: Result<SpellRecord, DecodeError>)
        ensures
            match r {
                Ok(v) => *old(pos) + 88 <= bytes@.len() && v.parsed_at(bytes@, *old(pos) as int)
                    && *final(pos) == *old(pos) + 88,
                Err(e) => e == DecodeError::UnexpectedEnd && *old(pos) + 88 > bytes@.len()
                    && *final(pos) == *old(pos),
            },
    {
        let start = *pos;
        if bytes.len() < 88 || start > bytes.len() - 88 {
            return Err(DecodeError::UnexpectedEnd);
        }
        let mut p = start;
        let complication_level = read_i32(bytes, &mut p)?;
        let mana_cost = read_i32(bytes, &mut p)?;
        let sphere = read_i32(bytes, &mut p)?;
        let item = read_i32(bytes, &mut p)?;
        let spell_target = read_i32(bytes, &mut p)?;
        let delivery_system = read_i32(bytes, &mut p)?;
        let max_range = read_i32(bytes, &mut p)?;
        let spell_effect_speed = read_i32(bytes, &mut p)?;
        let distribution_system = read_i32(bytes, &mut p)?;
        let radius = read_i32(bytes, &mut p)?;
        let area_effect_affect = read_i32(bytes, &mut p)?;
        let area_effect_duration = read_i32(bytes, &mut p)?;
        let area_effect_frequency = read_i32(bytes, &mut p)?;
        let apply_on_unit_method = read_i32(bytes, &mut p)?;
        let spell_duration = read_i32(bytes, &mut p)?;
        let spell_frequency = read_i32(bytes, &mut p)?;
        let damage_min = read_i32(bytes, &mut p)?;
        let damage_max = read_i32(bytes, &mut p)?;
        let defensive = read_i32(bytes, &mut p)?;
        let skill_offset = read_i32(bytes, &mut p)?;
        let scroll_cost = read_i32(bytes, &mut p)?;
        let book_cost = read_i32(bytes, &mut p)?;
        *pos = p;
        Ok(SpellRecord { complication_level, mana_cost, sphere, item, spell_target, delivery_system, max_range, spell_effect_speed, distribution_system, radius, area_effect_affect, area_effect_duration, area_effect_frequency, apply_on_unit_method, spell_duration, spell_frequency, damage_min, damage_max, defensive, skill_offset, scroll_cost, book_cost })
    }
}

/// A fixed all-integer stat record.
#[derive(Clone, Copy, PartialEq, Eq, Structural, Debug)]
pub struct UnitRecord {
    pub body: i32,
    pub reaction: i32,
    pub mind: i32,
    pub spirit: i32,
    pub health_max: i32,
    pub hp_regeneration: i32,
    pub mana_max: i32,
    pub mp_regeneration: i32,
    pub speed: i32,
    pub rotation_speed: i32,
    pub scan_range: i32,
    pub physical_min: i32,
    pub physical_max: i32,
    pub attack_kind: i32,
    pub to_hit: i32,
    pub defence: i32,
    pub absorption: i32,
    pub attack_charge_time: i32,
    pub attack_relax_time: i32,
    pub protect_fire: i32,
    pub protect_water: i32,
    pub protect_air: i32,
    pub protect_earth: i32,
    pub protect_astral: i32,
    pub resist_blade: i32,
    pub resist_axe: i32,
    pub resist_bludgeon: i32,
    pub resist_pike: i32,
    pub resist_shooting: i32,
    pub type_id: i32,
    pub face: i32,
    pub token_size: i32,
    pub movement_type: i32,
    pub dying_time: i32,
    pub withdraw: i32,
    pub wimpy: i32,
    pub see_invisible: i32,
    pub xp_value: i32,
    pub treasure1_gold: i32,
    pub treasure_min1: i32,
    pub treasure_max1: i32,
    pub treasure2_item: i32,
    pub treasure_min2: i32,
    pub treasure_max2: i32,
    pub treasure3_magic: i32,
    pub treasure_min3: i32,
    pub treasure_max3: i32,
    pub power: i32,
    pub spell1: i32,
    pub probability1: i32,
    pub spell2: i32,
    pub probability2: i32,
    pub spell3: i32,
    pub probability3: i32,
    pub spell_power: i32,
}

impl UnitRecord {
    pub open spec fn parsed_at(self, b: Seq<u8>, pos: int) -> bool {
        &&& self.body == (le32_at(b, pos + 0) as u32) as i32
        &&& self.reaction == (le32_at(b, pos + 4) as u32) as i32
        &&& self.mind == (le32_at(b, pos + 8) as u32) as i32
        &&& self.spirit == (le32_at(b, pos + 12) as u32) as i32
        &&& self.health_max == (le32_at(b, pos + 16) as u32) as i32
        &&& self.hp_regeneration == (le32_at(b, pos + 20) as u32) as i32
        &&& self.mana_max == (le32_at(b, pos + 24) as u32) as i32
        &&& self.mp_regeneration == (le32_at(b, pos + 28) as u32) as i32
        &&& self.speed == (le32_at(b, pos + 32) as u32) as i32
        &&& self.rotation_speed == (le32_at(b, pos + 36) as u32) as i32
        &&& self.scan_range == (le32_at(b, pos + 40) as u32) as i32
        &&& self.physical_min == (le32_at(b, pos + 44) as u32) as i32
        &&& self.physical_max == (le32_at(b, pos + 48) as u32) as i32
        &&& self.attack_kind == (le32_at(b, pos + 52) as u32) as i32
        &&& self.to_hit == (le32_at(b, pos + 56) as u32) as i32
        &&& self.defence == (le32_at(b, pos + 60) as u32) as i32
        &&& self.absorption == (le32_at(b, pos + 64) as u32) as i32
        &&& self.attack_charge_time == (le32_at(b, pos + 68) as u32) as i32
        &&& self.attack_relax_time == (le32_at(b, pos + 72) as u32) as i32
        &&& self.protect_fire == (le32_at(b, pos + 76) as u32) as i32
        &&& self.protect_water == (le32_at(b, pos + 80) as u32) as i32
        &&& self.protect_air == (le32_at(b, pos + 84) as u32) as i32
        &&& self.protect_earth == (le32_at(b, pos + 88) as u32) as i32
        &&& self.protect_astral == (le32_at(b, pos + 92) as u32) as i32
        &&& self.resist_blade == (le32_at(b, pos + 96) as u32) as i32
        &&& self.resist_axe == (le32_at(b, pos + 100) as u32) as i32
        &&& self.resist_bludgeon == (le32_at(b, pos + 104) as u32) as i32
        &&& self.resist_pike == (le32_at(b, pos + 108) as u32) as i32
        &&& self.resist_shooting == (le32_at(b, pos + 112) as u32) as i32
        &&& self.type_id == (le32_at(b, pos + 116) as u32) as i32
        &&& self.face == (le32_at(b, pos + 120) as u32) as i32
        &&& self.token_size == (le32_at(b, pos + 124) as u32) as i32
        &&& self.movement_type == (le32_at(b, pos + 128) as u32) as i32
        &&& self.dying_time == (le32_at(b, pos + 132) as u32) as i32
        &&& self.withdraw == (le32_at(b, pos + 136) as u32) as i32
        &&& self.wimpy == (le32_at(b, pos + 140) as u32) as i32
        &&& self.see_invisible == (le32_at(b, pos + 144) as u32) as i32
        &&& self.xp_value == (le32_at(b, pos + 148) as u32) as i32
        &&& self.treasure1_gold == (le32_at(b, pos + 152) as u32) as i32
        &&& self.treasure_min1 == (le32_at(b, pos + 156) as u32) as i32
        &&& self.treasure_max1 == (le32_at(b, pos + 160) as u32) as i32
        &&& self.treasure2_item == (le32_at(b, pos + 164) as u32) as i32
        &&& self.treasure_min2 == (le32_at(b, pos + 168) as u32) as i32
        &&& self.treasure_max2 == (le32_at(b, pos + 172) as u32) as i32
        &&& self.treasure3_magic == (le32_at(b, pos + 176) as u32) as i32
        &&& self.treasure_min3 == (le32_at(b, pos + 180) as u32) as i32
        &&& self.treasure_max3 == (le32_at(b, pos + 184) as u32) as i32
        &&& self.power == (le32_at(b, pos + 188) as u32) as i32
        &&& self.spell1 == (le32_at(b, pos + 192) as u32) as i32
        &&& self.probability1 == (le32_at(b, pos + 196) as u32) as i32
        &&& self.spell2 == (le32_at(b, pos + 200) as u32) as i32
        &&& self.probability2 == (le32_at(b, pos + 204) as u32) as i32
        &&& self.spell3 == (le32_at(b, pos + 208) as u32) as i32
        &&& self.probability3 == (le32_at(b, pos + 212) as u32) as i32
        &&& self.spell_power == (le32_at(b, pos + 216) as u32) as i32
    }

    /// Reads the 220-byte record.
    pub fn read_from_stream(bytes: &Vec<u8>, pos: &mut usize) -> (r: Result<UnitRecord, DecodeError>)
        ensures
            match r {
                Ok(v) => *old(pos) + 220 <= bytes@.len() && v.parsed_at(bytes@, *old(pos) as int)
                    && *final(pos) == *old(pos) + 220,
                Err(e) => e == DecodeError::UnexpectedEnd && *old(pos) + 220 > bytes@.len()
                    && *final(pos) == *old(pos),
            },
    {
        let start = *pos;
        if bytes.len() < 220 || start > bytes.len() - 220 {
            return Err(DecodeError::UnexpectedEnd);
        }
        let mut p = start;
        let mut vals = [0u32;55];
        let mut i: usize = 0;
        while i < 55
            invariant
                i <= 55,
                p == start + 4 * i,
                start + 220 <= bytes@.len(),
                forall|j: int| 0 <= j < i ==> vals@[j] == le32_at(bytes@, start + 4 * j),
            decreases 55 - i,
        {
            vals[i] = match read_u32(bytes, &mut p) {
                Ok(v) => v,
                Err(_) => {
                    proof {
                        assert(false);
                    }
                    0
                },
            };
            i = i + 1;
        }
        *pos = p;
        Ok(UnitRecord {
            body: vals[0] as i32,
            reaction: vals[1] as i32,
            mind: vals[2] as i32,
            spirit: vals[3] as i32,
            health_max: vals[4] as i32,
            hp_regeneration: vals[5] as i32,
            mana_max: vals[6] as i32,
            mp_regeneration: vals[7] as i32,
            speed: vals[8] as i32,
            rotation_speed: vals[9] as i32,
            scan_range: vals[10] as i32,
            physical_min: vals[11] as i32,
            physical_max: vals[12] as i32,
            attack_kind: vals[13] as i32,
            to_hit: vals[14] as i32,
            defence: vals[15] as i32,
            absorption: vals[16] as i32,
            attack_charge_time: vals[17] as i32,
            attack_relax_time: vals[18] as i32,
            protect_fire: vals[19] as i32,
            protect_water: vals[20] as i32,
            protect_air: vals[21] as i32,
            protect_earth: vals[22] as i32,
            protect_astral: vals[23] as i32,
            resist_blade: vals[24] as i32,
            resist_axe: vals[25] as i32,
            resist_bludgeon: vals[26] as i32,
            resist_pike: vals[27] as i32,
            resist_shooting: vals[28] as i32,
            type_id: vals[29] as i32,
            face: vals[30] as i32,
            token_size: vals[31] as i32,
            movement_type: vals[32] as i32,
            dying_time: vals[33] as i32,
            withdraw: vals[34] as i32,
            wimpy: vals[35] as i32,
            see_invisible: vals[36] as i32,
            xp_value: vals[37] as i32,
            treasure1_gold: vals[38] as i32,
            treasure_min1: vals[39] as i32,
            treasure_max1: vals[40] as i32,
            treasure2_item: vals[41] as i32,
            treasure_min2: vals[42] as i32,
            treasure_max2: vals[43] as i32,
            treasure3_magic: vals[44] as i32,
            treasure_min3: vals[45] as i32,
            treasure_max3: vals[46] as i32,
            power: vals[47] as i32,
            spell1: vals[48] as i32,
            probability1: vals[49] as i32,
            spell2: vals[50] as i32,
            probability2: vals[51] as i32,
            spell3: vals[52] as i32,
            probability3: vals[53] as i32,
            spell_power: vals[54] as i32,
        })
    }
}

/// A fixed all-integer stat record.
#[derive(Clone, Copy, PartialEq, Eq, Structural, Debug)]
pub struct HumanRecord {
    pub body: i32,
    pub reaction: i32,
    pub mind: i32,
    pub spirit: i32,
    pub health_max: i32,
    pub mana_max: i32,
    pub speed: i32,
    pub rotation_speed: i32,
    pub scan_range: i32,
    pub defence: i32,
    pub skill_general: i32,
    pub skill_blade_fire: i32,
    pub skill_axe_water: i32,
    pub skill_bludgeon_air: i32,
    pub skill_pike_earth: i32,
    pub skill_shooting_astral: i32,
    pub type_id: i32,
    pub face: i32,
    pub gender: i32,
    pub attack_charge_time: i32,
    pub attack_relax_time: i32,
    pub token_size: i32,
    pub movement_type: i32,
    pub dying_time: i32,
    pub server_id: i32,
    pub known_spells: i32,
}

impl HumanRecord {
    pub open spec fn parsed_at(self, b: Seq<u8>, pos: int) -> bool {
        &&& self.body == (le32_at(b, pos + 0) as u32) as i32
        &&& self.reaction == (le32_at(b, pos + 4) as u32) as i32
        &&& self.mind == (le32_at(b, pos + 8) as u32) as i32
        &&& self.spirit == (le32_at(b, pos + 12) as u32) as i32
        &&& self.health_max == (le32_at(b, pos + 16) as u32) as i32
        &&& self.mana_max == (le32_at(b, pos + 20) as u32) as i32
        &&& self.speed == (le32_at(b, pos + 24) as u32) as i32
        &&& self.rotation_speed == (le32_at(b, pos + 28) as u32) as i32
        &&& self.scan_range == (le32_at(b, pos + 32) as u32) as i32
        &&& self.defence == (le32_at(b, pos + 36) as u32) as i32
        &&& self.skill_general == (le32_at(b, pos + 40) as u32) as i32
        &&& self.skill_blade_fire == (le32_at(b, pos + 44) as u32) as i32
        &&& self.skill_axe_water == (le32_at(b, pos + 48) as u32) as i32
        &&& self.skill_bludgeon_air == (le32_at(b, pos + 52) as u32) as i32
        &&& self.skill_pike_earth == (le32_at(b, pos + 56) as u32) as i32
        &&& self.skill_shooting_astral == (le32_at(b, pos + 60) as u32) as i32
        &&& self.type_id == (le32_at(b, pos + 64) as u32) as i32
        &&& self.face == (le32_at(b, pos + 68) as u32) as i32
        &&& self.gender == (le32_at(b, pos + 72) as u32) as i32
        &&& self.attack_charge_time == (le32_at(b, pos + 76) as u32) as i32
        &&& self.attack_relax_time == (le32_at(b, pos + 80) as u32) as i32
        &&& self.token_size == (le32_at(b, pos + 84) as u32) as i32
        &&& self.movement_type == (le32_at(b, pos + 88) as u32) as i32
        &&& self.dying_time == (le32_at(b, pos + 92) as u32) as i32
        &&& self.server_id == (le32_at(b, pos + 96) as u32) as i32
        &&& self.known_spells == (le32_at(b, pos + 100) as u32) as i32
    }

    /// Reads the 104-byte record.
    pub fn read_from_stream(bytes: &Vec<u8>, pos: &mut usize) -> (r: Result<HumanRecord, DecodeError>)
        ensures
            match r {
                Ok(v) => *old(pos) + 104 <= bytes@.len() && v.parsed_at(bytes@, *old(pos) as int)
                    && *final(pos) == *old(pos) + 104,
                Err(e) => e == DecodeError::UnexpectedEnd && *old(pos) + 104 > bytes@.len()
                    && *final(pos) == *old(pos),
            },
    {
        let start = *pos;
        if bytes.len() < 104 || start > bytes.len() - 104 {
            return Err(DecodeError::UnexpectedEnd);
        }
        let mut p = start;
        let body = read_i32(bytes, &mut p)?;
        let reaction = read_i32(bytes, &mut p)?;
        let mind = read_i32(bytes, &mut p)?;
        let spirit = read_i32(bytes, &mut p)?;
        let health_max = read_i32(bytes, &mut p)?;
        let mana_max = read_i32(bytes, &mut p)?;
        let speed = read_i32(bytes, &mut p)?;
        let rotation_speed = read_i32(bytes, &mut p)?;
        let scan_range = read_i32(bytes, &mut p)?;
        let defence = read_i32(bytes, &mut p)?;
        let skill_general = read_i32(bytes, &mut p)?;
        let skill_blade_fire = read_i32(bytes, &mut p)?;
        let skill_axe_water = read_i32(bytes, &mut p)?;
        let skill_bludgeon_air = read_i32(bytes, &mut p)?;
        let skill_pike_earth = read_i32(bytes, &mut p)?;
        let skill_shooting_astral = read_i32(bytes, &mut p)?;
        let type_id = read_i32(bytes, &mut p)?;
        let face = read_i32(bytes, &mut p)?;
        let gender = read_i32(bytes, &mut p)?;
        let attack_charge_time = read_i32(bytes, &mut p)?;
        let attack_relax_time = read_i32(bytes, &mut p)?;
        let token_size = read_i32(bytes, &mut p)?;
        let movement_type = read_i32(bytes, &mut p)?;
        let dying_time = read_i32(bytes, &mut p)?;
        let server_id = read_i32(bytes, &mut p)?;
        let known_spells = read_i32(bytes, &mut p)?;
        *pos = p;
        Ok(HumanRecord { body, reaction, mind, spirit, health_max, mana_max, speed, rotation_speed, scan_range, defence, skill_general, skill_blade_fire, skill_axe_water, skill_bludgeon_air, skill_pike_earth, skill_shooting_astral, type_id, face, gender, attack_charge_time, attack_relax_time, token_size, movement_type, dying_time, server_id, known_spells })
    }
}


/// One named ItemRecord row: a zero-terminated name, a two-byte pad, and the
/// stat record.
#[derive(Clone, PartialEq, Debug)]
pub struct ItemInfo {
    pub name: CP866String,
    pub details: ItemRecord,
}

/// Where one row parsed at `pos` ends.
pub open spec fn spec_iteminfo_end(b: Seq<u8>, pos: int) -> Option<int> {
    let e = spec_nul_end(b, pos);
    if e >= b.len() || e + 3 + 80 > b.len() {
        Option::None
    } else {
        Option::Some(e + 3 + 80)
    }
}

pub open spec fn iteminfo_parsed_at(v: ItemInfo, b: Seq<u8>, pos: int) -> bool {
    let e = spec_nul_end(b, pos);
    &&& v.name.0@ == cp866_decoded(b.subrange(pos, e))
    &&& v.details.parsed_at(b, e + 3)
}

impl ItemInfo {
    /// Reads one row.
    pub fn read_from_stream(bytes: &Vec<u8>, pos: &mut usize) -> (r: Result<ItemInfo, DecodeError>)
        requires
            *old(pos) <= bytes@.len(),
        ensures
            match r {
                Ok(v) => {
                    &&& spec_iteminfo_end(bytes@, *old(pos) as int) is Some
                    &&& iteminfo_parsed_at(v, bytes@, *old(pos) as int)
                    &&& *final(pos) == spec_iteminfo_end(bytes@, *old(pos) as int).unwrap()
                },
                Err(e) => e == DecodeError::UnexpectedEnd && spec_iteminfo_end(
                    bytes@,
                    *old(pos) as int,
                ) is None,
            },
    {
        let mut p = *pos;
        let name = CP866String::read_from_stream(bytes, &mut p)?;
        skip_bytes(bytes, &mut p, 2)?;
        let details = ItemRecord::read_from_stream(bytes, &mut p)?;
        *pos = p;
        Ok(ItemInfo { name, details })
    }
}

/// One named ParameterRecord row: a zero-terminated name, a two-byte pad, and the
/// stat record.
#[derive(Clone, PartialEq, Debug)]
pub struct ParameterInfo {
    pub name: CP866String,
    pub details: ParameterRecord,
}

/// Where one row parsed at `pos` ends.
pub open spec fn spec_parameterinfo_end(b: Seq<u8>, pos: int) -> Option<int> {
    let e = spec_nul_end(b, pos);
    if e >= b.len() || e + 3 + 112 > b.len() {
        Option::None
    } else {
        Option::Some(e + 3 + 112)
    }
}

pub open spec fn parameterinfo_parsed_at(v: ParameterInfo, b: Seq<u8>, pos: int) -> bool {
    let e = spec_nul_end(b, pos);
    &&& v.name.0@ == cp866_decoded(b.subrange(pos, e))
    &&& v.details.parsed_at(b, e + 3)
}

impl ParameterInfo {
    /// Reads one row.
    pub fn read_from_stream(bytes: &Vec<u8>, pos: &mut usize) -> (r: Result<ParameterInfo, DecodeError>)
        requires
            *old(pos) <= bytes@.len(),
        ensures
            match r {
                Ok(v) => {
                    &&& spec_parameterinfo_end(bytes@, *old(pos) as int) is Some
                    &&& parameterinfo_parsed_at(v, bytes@, *old(pos) as int)
                    &&& *final(pos) == spec_parameterinfo_end(bytes@, *old(pos) as int).unwrap()
                },
                Err(e) => e == DecodeError::UnexpectedEnd && spec_parameterinfo_end(
                    bytes@,
                    *old(pos) as int,
                ) is None,
            },
    {
        let mut p = *pos;
        let name = CP866String::read_from_stream(bytes, &mut p)?;
        skip_bytes(bytes, &mut p, 2)?;
        let details = ParameterRecord::read_from_stream(bytes, &mut p)?;
        *pos = p;
        Ok(ParameterInfo { name, details })
    }
}

/// One named SpellRecord row: a zero-terminated name, a two-byte pad, and the
/// stat record.
#[derive(Clone, PartialEq, Debug)]
pub struct SpellInfo {
    pub name: CP866String,
    pub details: SpellRecord,
}

/// Where one row parsed at `pos` ends.
pub open spec fn spec_spellinfo_end(b: Seq<u8>, pos: int) -> Option<int> {
    let e = spec_nul_end(b, pos);
    if e >= b.len() || e + 3 + 88 > b.len() {
        Option::None
    } else {
        Option::Some(e + 3 + 88)
    }
}

pub open spec fn spellinfo_parsed_at(v: SpellInfo, b: Seq<u8>, pos: int) -> bool {
    let e = spec_nul_end(b, pos);
    &&& v.name.0@ == cp866_decoded(b.subrange(pos, e))
    &&& v.details.parsed_at(b, e + 3)
}

impl SpellInfo {
    /// Reads one row.
    pub fn read_from_stream(bytes: &Vec<u8>, pos: &mut usize) -> (r: Result<SpellInfo, DecodeError>)
        requires
            *old(pos) <= bytes@.len(),
        ensures
            match r {
                Ok(v) => {
                    &&& spec_spellinfo_end(bytes@, *old(pos) as int) is Some
                    &&& spellinfo_parsed_at(v, bytes@, *old(pos) as int)
                    &&& *final(pos) == spec_spellinfo_end(bytes@, *old(pos) as int).unwrap()
                },
                Err(e) => e == DecodeError::UnexpectedEnd && spec_spellinfo_end(
                    bytes@,
                    *old(pos) as int,
                ) is None,
            },
    {
        let mut p = *pos;
        let name = CP866String::read_from_stream(bytes, &mut p)?;
        skip_bytes(bytes, &mut p, 2)?;
        let details = SpellRecord::read_from_stream(bytes, &mut p)?;
        *pos = p;
        Ok(SpellInfo { name, details })
    }
}

/// Reads `n` consecutive rows; each sits where the walk puts it.
#[verifier::loop_isolation(false)]
pub fn read_iteminfo_list(bytes: &Vec<u8>, pos: &mut usize, n: u32) -> (r: Result<
    Vec<ItemInfo>,
    DecodeError,
>)
    requires
        *old(pos) <= bytes@.len(),
    ensures
        *final(pos) <= bytes@.len(),
        match r {
            Ok(v) => {
                &&& v@.len() == n
                &&& exists|starts: Seq<int>|
                    {
                        &&& starts.len() == n
                        &&& n > 0 ==> starts[0] == *old(pos)
                        &&& forall|j: int|
                            0 <= j < n ==> iteminfo_parsed_at(
                                #[trigger] v@[j],
                                bytes@,
                                starts[j],
                            )
                        &&& forall|j: int|
                            0 <= j < n - 1 ==> spec_iteminfo_end(
                                bytes@,
                                #[trigger] starts[j],
                            ) == Option::Some(starts[j + 1])
                    }
            },
            Err(e) => e == DecodeError::UnexpectedEnd,
        },
{
    let mut out: Vec<ItemInfo> = Vec::new();
    let ghost mut starts: Seq<int> = Seq::empty();
    let mut k: u32 = 0;
    let mut p = *pos;
    while k < n
        invariant
            k <= n,
            p <= bytes@.len(),
            out@.len() == k,
            starts.len() == k,
            k == 0 ==> p == *old(pos),
            k > 0 ==> starts[0] == *old(pos),
            forall|j: int|
                0 <= j < k ==> iteminfo_parsed_at(#[trigger] out@[j], bytes@, starts[j]),
            forall|j: int|
                0 <= j < k - 1 ==> spec_iteminfo_end(bytes@, #[trigger] starts[j])
                    == Option::Some(starts[j + 1]),
            k > 0 ==> spec_iteminfo_end(bytes@, starts[k - 1]) == Option::Some(p as int),
        decreases n - k,
    {
        let ghost p0 = p as int;
        let e = ItemInfo::read_from_stream(bytes, &mut p)?;
        out.push(e);
        proof {
            starts = starts.push(p0);
        }
        k = k + 1;
    }
    *pos = p;
    Ok(out)
}

/// Reads `n` consecutive rows; each sits where the walk puts it.
#[verifier::loop_isolation(false)]
pub fn read_parameterinfo_list(bytes: &Vec<u8>, pos: &mut usize, n: u32) -> (r: Result<
    Vec<ParameterInfo>,
    DecodeError,
>)
    requires
        *old(pos) <= bytes@.len(),
    ensures
        *final(pos) <= bytes@.len(),
        match r {
            Ok(v) => {
                &&& v@.len() == n
                &&& exists|starts: Seq<int>|
                    {
                        &&& starts.len() == n
                        &&& n > 0 ==> starts[0] == *old(pos)
                        &&& forall|j: int|
                            0 <= j < n ==> parameterinfo_parsed_at(
                                #[trigger] v@[j],
                                bytes@,
                                starts[j],
                            )
                        &&& forall|j: int|
                            0 <= j < n - 1 ==> spec_parameterinfo_end(
                                bytes@,
                                #[trigger] starts[j],
                            ) == Option::Some(starts[j + 1])
                    }
            },
            Err(e) => e == DecodeError::UnexpectedEnd,
        },
{
    let mut out: Vec<ParameterInfo> = Vec::new();
    let ghost mut starts: Seq<int> = Seq::empty();
    let mut k: u32 = 0;
    let mut p = *pos;
    while k < n
        invariant
            k <= n,
            p <= bytes@.len(),
            out@.len() == k,
            starts.len() == k,
            k == 0 ==> p == *old(pos),
            k > 0 ==> starts[0] == *old(pos),
            forall|j: int|
                0 <= j < k ==> parameterinfo_parsed_at(#[trigger] out@[j], bytes@, starts[j]),
            forall|j: int|
                0 <= j < k - 1 ==> spec_parameterinfo_end(bytes@, #[trigger] starts[j])
                    == Option::Some(starts[j + 1]),
            k > 0 ==> spec_parameterinfo_end(bytes@, starts[k - 1]) == Option::Some(p as int),
        decreases n - k,
    {
        let ghost p0 = p as int;
        let e = ParameterInfo::read_from_stream(bytes, &mut p)?;
        out.push(e);
        proof {
            starts = starts.push(p0);
        }
        k = k + 1;
    }
    *pos = p;
    Ok(out)
}

/// Reads `n` consecutive rows; each sits where the walk puts it.
#[verifier::loop_isolation(false)]
pub fn read_spellinfo_list(bytes: &Vec<u8>, pos: &mut usize, n: u32) -> (r: Result<
    Vec<SpellInfo>,
    DecodeError,
>)
    requires
        *old(pos) <= bytes@.len(),
    ensures
        *final(pos) <= bytes@.len(),
        match r {
            Ok(v) => {
                &&& v@.len() == n
                &&& exists|starts: Seq<int>|
                    {
                        &&& starts.len() == n
                        &&& n > 0 ==> starts[0] == *old(pos)
                        &&& forall|j: int|
                            0 <= j < n ==> spellinfo_parsed_at(
                                #[trigger] v@[j],
                                bytes@,
                                starts[j],
                            )
                        &&& forall|j: int|
                            0 <= j < n - 1 ==> spec_spellinfo_end(
                                bytes@,
                                #[trigger] starts[j],
                            ) == Option::Some(starts[j + 1])
                    }
            },
            Err(e) => e == DecodeError::UnexpectedEnd,
        },
{
    let mut out: Vec<SpellInfo> = Vec::new();
    let ghost mut starts: Seq<int> = Seq::empty();
    let mut k: u32 = 0;
    let mut p = *pos;
    while k < n
        invariant
            k <= n,
            p <= bytes@.len(),
            out@.len() == k,
            starts.len() == k,
            k == 0 ==> p == *old(pos),
            k > 0 ==> starts[0] == *old(pos),
            forall|j: int|
                0 <= j < k ==> spellinfo_parsed_at(#[trigger] out@[j], bytes@, starts[j]),
            forall|j: int|
                0 <= j < k - 1 ==> spec_spellinfo_end(bytes@, #[trigger] starts[j])
                    == Option::Some(starts[j + 1]),
            k > 0 ==> spec_spellinfo_end(bytes@, starts[k - 1]) == Option::Some(p as int),
        decreases n - k,
    {
        let ghost p0 = p as int;
        let e = SpellInfo::read_from_stream(bytes, &mut p)?;
        out.push(e);
        proof {
            starts = starts.push(p0);
        }
        k = k + 1;
    }
    *pos = p;
    Ok(out)
}

/// The fixed structure stat record (mixed field widths).
#[derive(Clone, Copy, PartialEq, Eq, Structural, Debug)]
pub struct StructureRecord {
    pub size_x: i32,
    pub size_y: i32,
    pub scan_range: i32,
    pub health_max: i16,
    pub passability: i8,
    pub building_present: i8,
    pub start_id: i32,
    pub tiles: i16,
}

impl StructureRecord {
    pub open spec fn parsed_at(self, b: Seq<u8>, pos: int) -> bool {
        &&& self.size_x == (le32_at(b, pos) as u32) as i32
        &&& self.size_y == (le32_at(b, pos + 4) as u32) as i32
        &&& self.scan_range == (le32_at(b, pos + 8) as u32) as i32
        &&& self.health_max == (le16_at(b, pos + 12) as u16) as i16
        &&& self.passability == b[pos + 14] as i8
        &&& self.building_present == b[pos + 15] as i8
        &&& self.start_id == (le32_at(b, pos + 16) as u32) as i32
        &&& self.tiles == (le16_at(b, pos + 20) as u16) as i16
    }

    /// Reads the 24-byte record.
    pub fn read_from_stream(bytes: &Vec<u8>, pos: &mut usize) -> (r: Result<
        StructureRecord,
        DecodeError,
    >)
        ensures
            match r {
                Ok(v) => *old(pos) + 24 <= bytes@.len() && v.parsed_at(bytes@, *old(pos) as int)
                    && *final(pos) == *old(pos) + 24,
                Err(e) => e == DecodeError::UnexpectedEnd && *old(pos) + 24 > bytes@.len()
                    && *final(pos) == *old(pos),
            },
    {
        let start = *pos;
        if bytes.len() < 24 || start > bytes.len() - 24 {
            return Err(DecodeError::UnexpectedEnd);
        }
        let mut p = start;
        let size_x = read_i32(bytes, &mut p)?;
        let size_y = read_i32(bytes, &mut p)?;
        let scan_range = read_i32(bytes, &mut p)?;
        let health_max = crate::byte_stream::read_i16(bytes, &mut p)?;
        let passability = read_u8(bytes, &mut p)? as i8;
        let building_present = read_u8(bytes, &mut p)? as i8;
        let start_id = read_i32(bytes, &mut p)?;
        let tiles = crate::byte_stream::read_i16(bytes, &mut p)?;
        skip_bytes(bytes, &mut p, 2)?;
        *pos = p;
        Ok(
            StructureRecord {
                size_x,
                size_y,
                scan_range,
                health_max,
                passability,
                building_present,
                start_id,
                tiles,
            },
        )
    }
}

/// One named StructureRecord row: a zero-terminated name, a two-byte pad, and the
/// stat record.
#[derive(Clone, PartialEq, Debug)]
pub struct StructureInfo {
    pub name: CP866String,
    pub details: StructureRecord,
}

/// Where one row parsed at `pos` ends.
pub open spec fn spec_structureinfo_end(b: Seq<u8>, pos: int) -> Option<int> {
    let e = spec_nul_end(b, pos);
    if e >= b.len() || e + 3 + 24 > b.len() {
        Option::None
    } else {
        Option::Some(e + 3 + 24)
    }
}

pub open spec fn structureinfo_parsed_at(v: StructureInfo, b: Seq<u8>, pos: int) -> bool {
    let e = spec_nul_end(b, pos);
    &&& v.name.0@ == cp866_decoded(b.subrange(pos, e))
    &&& v.details.parsed_at(b, e + 3)
}

impl StructureInfo {
    /// Reads one row.
    pub fn read_from_stream(bytes: &Vec<u8>, pos: &mut usize) -> (r: Result<StructureInfo, DecodeError>)
        requires
            *old(pos) <= bytes@.len(),
        ensures
            match r {
                Ok(v) => {
                    &&& spec_structureinfo_end(bytes@, *old(pos) as int) is Some
                    &&& structureinfo_parsed_at(v, bytes@, *old(pos) as int)
                    &&& *final(pos) == spec_structureinfo_end(bytes@, *old(pos) as int).unwrap()
                },
                Err(e) => e == DecodeError::UnexpectedEnd && spec_structureinfo_end(
                    bytes@,
                    *old(pos) as int,
                ) is None,
            },
    {
        let mut p = *pos;
        let name = CP866String::read_from_stream(bytes, &mut p)?;
        skip_bytes(bytes, &mut p, 2)?;
        let details = StructureRecord::read_from_stream(bytes, &mut p)?;
        *pos = p;
        Ok(StructureInfo { name, details })
    }
}

/// Reads `n` consecutive rows; each sits where the walk puts it.
#[verifier::loop_isolation(false)]
pub fn read_structureinfo_list(bytes: &Vec<u8>, pos: &mut usize, n: u32) -> (r: Result<
    Vec<StructureInfo>,
    DecodeError,
>)
    requires
        *old(pos) <= bytes@.len(),
    ensures
        *final(pos) <= bytes@.len(),
        match r {
            Ok(v) => {
                &&& v@.len() == n
                &&& exists|starts: Seq<int>|
                    {
                        &&& starts.len() == n
                        &&& n > 0 ==> starts[0] == *old(pos)
                        &&& forall|j: int|
                            0 <= j < n ==> structureinfo_parsed_at(
                                #[trigger] v@[j],
                                bytes@,
                                starts[j],
                            )
                        &&& forall|j: int|
                            0 <= j < n - 1 ==> spec_structureinfo_end(
                                bytes@,
                                #[trigger] starts[j],
                            ) == Option::Some(starts[j + 1])
                    }
            },
            Err(e) => e == DecodeError::UnexpectedEnd,
        },
{
    let mut out: Vec<StructureInfo> = Vec::new();
    let ghost mut starts: Seq<int> = Seq::empty();
    let mut k: u32 = 0;
    let mut p = *pos;
    while k < n
        invariant
            k <= n,
            p <= bytes@.len(),
            out@.len() == k,
            starts.len() == k,
            k == 0 ==> p == *old(pos),
            k > 0 ==> starts[0] == *old(pos),
            forall|j: int|
                0 <= j < k ==> structureinfo_parsed_at(#[trigger] out@[j], bytes@, starts[j]),
            forall|j: int|
                0 <= j < k - 1 ==> spec_structureinfo_end(bytes@, #[trigger] starts[j])
                    == Option::Some(starts[j + 1]),
            k > 0 ==> spec_structureinfo_end(bytes@, starts[k - 1]) == Option::Some(p as int),
        decreases n - k,
    {
        let ghost p0 = p as int;
        let e = StructureInfo::read_from_stream(bytes, &mut p)?;
        out.push(e);
        proof {
            starts = starts.push(p0);
        }
        k = k + 1;
    }
    *pos = p;
    Ok(out)
}

/// The shape modifier record: seven stored 64-bit floats, kept as their
/// raw bit patterns.
#[derive(Clone, Copy, PartialEq, Eq, Structural, Debug)]
pub struct ShapeRecord {
    pub price_bits: u64,
    pub weight_bits: u64,
    pub damage_bits: u64,
    pub to_hit_bits: u64,
    pub defence_bits: u64,
    pub absorption_bits: u64,
    pub mag_cap_level_bits: u64,
}

impl ShapeRecord {
    pub open spec fn parsed_at(self, b: Seq<u8>, pos: int) -> bool {
        &&& self.price_bits == le64_at(b, pos)
        &&& self.weight_bits == le64_at(b, pos + 8)
        &&& self.damage_bits == le64_at(b, pos + 16)
        &&& self.to_hit_bits == le64_at(b, pos + 24)
        &&& self.defence_bits == le64_at(b, pos + 32)
        &&& self.absorption_bits == le64_at(b, pos + 40)
        &&& self.mag_cap_level_bits == le64_at(b, pos + 48)
    }

    /// Reads the 56-byte record.
    pub fn read_from_stream(bytes: &Vec<u8>, pos: &mut usize) -> (r: Result<
        ShapeRecord,
        DecodeError,
    >)
        ensures
            match r {
                Ok(v) => *old(pos) + 56 <= bytes@.len() && v.parsed_at(bytes@, *old(pos) as int)
                    && *final(pos) == *old(pos) + 56,
                Err(e) => e == DecodeError::UnexpectedEnd && *old(pos) + 56 > bytes@.len()
                    && *final(pos) == *old(pos),
            },
    {
        let start = *pos;
        if bytes.len() < 56 || start > bytes.len() - 56 {
            return Err(DecodeError::UnexpectedEnd);
        }
        let mut p = start;
        let price_bits = read_u64(bytes, &mut p)?;
        let weight_bits = read_u64(bytes, &mut p)?;
        let damage_bits = read_u64(bytes, &mut p)?;
        let to_hit_bits = read_u64(bytes, &mut p)?;
        let defence_bits = read_u64(bytes, &mut p)?;
        let absorption_bits = read_u64(bytes, &mut p)?;
        let mag_cap_level_bits = read_u64(bytes, &mut p)?;
        *pos = p;
        Ok(
            ShapeRecord {
                price_bits,
                weight_bits,
                damage_bits,
                to_hit_bits,
                defence_bits,
                absorption_bits,
                mag_cap_level_bits,
            },
        )
    }
}

/// One named shape row: a zero-terminated name, sixteen pad bytes, the
/// record.
#[derive(Clone, PartialEq, Debug)]
pub struct ShapeInfo {
    pub name: CP866String,
    pub details: ShapeRecord,
}

pub open spec fn spec_shapeinfo_end(b: Seq<u8>, pos: int) -> Option<int> {
    let e = spec_nul_end(b, pos);
    if e >= b.len() || e + 17 + 56 > b.len() {
        Option::None
    } else {
        Option::Some(e + 17 + 56)
    }
}

pub open spec fn shapeinfo_parsed_at(v: ShapeInfo, b: Seq<u8>, pos: int) -> bool {
    let e = spec_nul_end(b, pos);
    &&& v.name.0@ == cp866_decoded(b.subrange(pos, e))
    &&& v.details.parsed_at(b, e + 17)
}

impl ShapeInfo {
    /// Reads one shape row.
    pub fn read_from_stream(bytes: &Vec<u8>, pos: &mut usize) -> (r: Result<ShapeInfo, DecodeError>)
        requires
            *old(pos) <= bytes@.len(),
        ensures
            match r {
                Ok(v) => {
                    &&& spec_shapeinfo_end(bytes@, *old(pos) as int) is Some
                    &&& shapeinfo_parsed_at(v, bytes@, *old(pos) as int)
                    &&& *final(pos) == spec_shapeinfo_end(bytes@, *old(pos) as int).unwrap()
                },
                Err(e) => e == DecodeError::UnexpectedEnd && spec_shapeinfo_end(
                    bytes@,
                    *old(pos) as int,
                ) is None,
            },
    {
        let mut p = *pos;
        let name = CP866String::read_from_stream(bytes, &mut p)?;
        skip_bytes(bytes, &mut p, 16)?;
        let details = ShapeRecord::read_from_stream(bytes, &mut p)?;
        *pos = p;
        Ok(ShapeInfo { name, details })
    }
}

/// Reads `n` consecutive rows; each sits where the walk puts it.
#[verifier::loop_isolation(false)]
pub fn read_shapeinfo_list(bytes: &Vec<u8>, pos: &mut usize, n: u32) -> (r: Result<
    Vec<ShapeInfo>,
    DecodeError,
>)
    requires
        *old(pos) <= bytes@.len(),
    ensures
        *final(pos) <= bytes@.len(),
        match r {
            Ok(v) => {
                &&& v@.len() == n
                &&& exists|starts: Seq<int>|
                    {
                        &&& starts.len() == n
                        &&& n > 0 ==> starts[0] == *old(pos)
                        &&& forall|j: int|
                            0 <= j < n ==> shapeinfo_parsed_at(
                                #[trigger] v@[j],
                                bytes@,
                                starts[j],
                            )
                        &&& forall|j: int|
                            0 <= j < n - 1 ==> spec_shapeinfo_end(
                                bytes@,
                                #[trigger] starts[j],
                            ) == Option::Some(starts[j + 1])
                    }
            },
            Err(e) => e == DecodeError::UnexpectedEnd,
        },
{
    let mut out: Vec<ShapeInfo> = Vec::new();
    let ghost mut starts: Seq<int> = Seq::empty();
    let mut k: u32 = 0;
    let mut p = *pos;
    while k < n
        invariant
            k <= n,
            p <= bytes@.len(),
            out@.len() == k,
            starts.len() == k,
            k == 0 ==> p == *old(pos),
            k > 0 ==> starts[0] == *old(pos),
            forall|j: int|
                0 <= j < k ==> shapeinfo_parsed_at(#[trigger] out@[j], bytes@, starts[j]),
            forall|j: int|
                0 <= j < k - 1 ==> spec_shapeinfo_end(bytes@, #[trigger] starts[j])
                    == Option::Some(starts[j + 1]),
            k > 0 ==> spec_shapeinfo_end(bytes@, starts[k - 1]) == Option::Some(p as int),
        decreases n - k,
    {
        let ghost p0 = p as int;
        let e = ShapeInfo::read_from_stream(bytes, &mut p)?;
        out.push(e);
        proof {
            starts = starts.push(p0);
        }
        k = k + 1;
    }
    *pos = p;
    Ok(out)
}

/// One named magic item row: name, pad, the two-field record, one pad
/// byte, then descriptive text.
#[derive(Clone, PartialEq, Debug)]
pub struct MagicItemInfo {
    pub name: CP866String,
    pub details: MagicItemRecord,
    pub textual_info: CP866String,
}

pub open spec fn spec_magiciteminfo_end(b: Seq<u8>, pos: int) -> Option<int> {
    let e = spec_nul_end(b, pos);
    if e >= b.len() || e + 3 + 8 + 1 > b.len() {
        Option::None
    } else {
        let e2 = spec_nul_end(b, e + 12);
        if e2 >= b.len() {
            Option::None
        } else {
            Option::Some(e2 + 1)
        }
    }
}

pub open spec fn magiciteminfo_parsed_at(v: MagicItemInfo, b: Seq<u8>, pos: int) -> bool {
    let e = spec_nul_end(b, pos);
    let e2 = spec_nul_end(b, e + 12);
    &&& v.name.0@ == cp866_decoded(b.subrange(pos, e))
    &&& v.details.parsed_at(b, e + 3)
    &&& v.textual_info.0@ == cp866_decoded(b.subrange(e + 12, e2))
}

impl MagicItemInfo {
    /// Reads one magic item row.
    pub fn read_from_stream(bytes: &Vec<u8>, pos: &mut usize) -> (r: Result<
        MagicItemInfo,
        DecodeError,
    >)
        requires
            *old(pos) <= bytes@.len(),
        ensures
            match r {
                Ok(v) => {
                    &&& spec_magiciteminfo_end(bytes@, *old(pos) as int) is Some
                    &&& magiciteminfo_parsed_at(v, bytes@, *old(pos) as int)
                    &&& *final(pos) == spec_magiciteminfo_end(bytes@, *old(pos) as int).unwrap()
                },
                Err(e) => e == DecodeError::UnexpectedEnd && spec_magiciteminfo_end(
                    bytes@,
                    *old(pos) as int,
                ) is None,
            },
    {
        let mut p = *pos;
        let name = CP866String::read_from_stream(bytes, &mut p)?;
        skip_bytes(bytes, &mut p, 2)?;
        let details = MagicItemRecord::read_from_stream(bytes, &mut p)?;
        skip_bytes(bytes, &mut p, 1)?;
        let textual_info = CP866String::read_from_stream(bytes, &mut p)?;
        *pos = p;
        Ok(MagicItemInfo { name, details, textual_info })
    }
}

/// Reads `n` consecutive rows; each sits where the walk puts it.
#[verifier::loop_isolation(false)]
pub fn read_magiciteminfo_list(bytes: &Vec<u8>, pos: &mut usize, n: u32) -> (r: Result<
    Vec<MagicItemInfo>,
    DecodeError,
>)
    requires
        *old(pos) <= bytes@.len(),
    ensures
        *final(pos) <= bytes@.len(),
        match r {
            Ok(v) => {
                &&& v@.len() == n
                &&& exists|starts: Seq<int>|
                    {
                        &&& starts.len() == n
                        &&& n > 0 ==> starts[0] == *old(pos)
                        &&& forall|j: int|
                            0 <= j < n ==> magiciteminfo_parsed_at(
                                #[trigger] v@[j],
                                bytes@,
                                starts[j],
                            )
                        &&& forall|j: int|
                            0 <= j < n - 1 ==> spec_magiciteminfo_end(
                                bytes@,
                                #[trigger] starts[j],
                            ) == Option::Some(starts[j + 1])
                    }
            },
            Err(e) => e == DecodeError::UnexpectedEnd,
        },
{
    let mut out: Vec<MagicItemInfo> = Vec::new();
    let ghost mut starts: Seq<int> = Seq::empty();
    let mut k: u32 = 0;
    let mut p = *pos;
    while k < n
        invariant
            k <= n,
            p <= bytes@.len(),
            out@.len() == k,
            starts.len() == k,
            k == 0 ==> p == *old(pos),
            k > 0 ==> starts[0] == *old(pos),
            forall|j: int|
                0 <= j < k ==> magiciteminfo_parsed_at(#[trigger] out@[j], bytes@, starts[j]),
            forall|j: int|
                0 <= j < k - 1 ==> spec_magiciteminfo_end(bytes@, #[trigger] starts[j])
                    == Option::Some(starts[j + 1]),
            k > 0 ==> spec_magiciteminfo_end(bytes@, starts[k - 1]) == Option::Some(p as int),
        decreases n - k,
    {
        let ghost p0 = p as int;
        let e = MagicItemInfo::read_from_stream(bytes, &mut p)?;
        out.push(e);
        proof {
            starts = starts.push(p0);
        }
        k = k + 1;
    }
    *pos = p;
    Ok(out)
}


/// One unit table row: padding, name, padding, two bytes, the record and
/// descriptive text.
#[derive(Clone, PartialEq, Debug)]
pub struct UnitInfo {
    pub name: CP866String,
    pub details: UnitRecord,
    pub textual_info: CP866String,
}

impl UnitInfo {
    /// Reads one unit row: the name after its padding, the record two
    /// bytes later, then the text.
    pub fn read_from_stream(bytes: &Vec<u8>, pos: &mut usize) -> (r: Result<UnitInfo, DecodeError>)
        requires
            *old(pos) <= bytes@.len(),
        ensures
            *final(pos) <= bytes@.len(),
            match r {
                Ok(v) => {
                    let z = spec_skip_zeros(bytes@, *old(pos) as int);
                    let e = spec_nul_end(bytes@, z);
                    let rp = spec_skip_zeros(bytes@, e + 1) + 2;
                    &&& v.name.0@ == cp866_decoded(bytes@.subrange(z, e))
                    &&& v.details.parsed_at(bytes@, rp)
                    &&& v.textual_info.0@ == cp866_decoded(
                        bytes@.subrange(rp + 220, spec_nul_end(bytes@, rp + 220)),
                    )
                },
                Err(e) => e == DecodeError::UnexpectedEnd,
            },
    {
        let mut p = *pos;
        skip_zeros(bytes, &mut p);
        let name = CP866String::read_from_stream(bytes, &mut p)?;
        skip_zeros(bytes, &mut p);
        skip_bytes(bytes, &mut p, 2)?;
        let details = UnitRecord::read_from_stream(bytes, &mut p)?;
        let textual_info = CP866String::read_from_stream(bytes, &mut p)?;
        *pos = p;
        Ok(UnitInfo { name, details, textual_info })
    }
}

/// One hero table row: like a unit row, but followed by up to ten worn
/// item names terminated by the next unit-name-shaped string.
#[derive(Clone, PartialEq, Debug)]
pub struct HumanInfo {
    pub name: CP866String,
    pub details: HumanRecord,
    pub items_wearing: Vec<CP866String>,
}

impl HumanInfo {
    /// Reads one hero row.  The name and record are pinned exactly; for
    /// the worn-item list, short strings are collected until one matches
    /// the unit-name pattern (which is pushed back) or the padding
    /// pattern ends the list.
    #[verifier::loop_isolation(false)]
    pub fn read_from_stream(bytes: &Vec<u8>, pos: &mut usize) -> (r: Result<HumanInfo, DecodeError>)
        requires
            *old(pos) <= bytes@.len(),
        ensures
            *final(pos) <= bytes@.len(),
            match r {
                Ok(v) => {
                    let z = spec_skip_zeros(bytes@, *old(pos) as int);
                    let e = spec_nul_end(bytes@, z);
                    let rp = spec_skip_zeros(bytes@, e + 1) + 2;
                    &&& v.name.0@ == cp866_decoded(bytes@.subrange(z, e))
                    &&& v.details.parsed_at(bytes@, rp)
                    &&& v.items_wearing@.len() <= 10
                },
                Err(e) => e == DecodeError::UnexpectedEnd,
            },
    {
        let mut p = *pos;
        skip_zeros(bytes, &mut p);
        let name = CP866String::read_from_stream(bytes, &mut p)?;
        skip_zeros(bytes, &mut p);
        skip_bytes(bytes, &mut p, 2)?;
        let details = HumanRecord::read_from_stream(bytes, &mut p)?;
        let mut items_wearing: Vec<CP866String> = Vec::new();
        let mut tries: usize = 0;
        while tries < 10
            invariant
                p <= bytes@.len(),
                items_wearing@.len() <= tries <= 10,
            decreases 10 - tries,
        {
            tries = tries + 1;
            let la = match crate::byte_stream::look_ahead(bytes, &p) {
                Ok(v) => v,
                Err(e) => {
                    return Err(e);
                },
            };
            if la >= 128 || la == 0 {
                proof {
                    assert(p < bytes.len());
                }
                p = p + 1;
                continue ;
            }
            let string_start = p;
            let textual_info = CP866String::read_from_stream(bytes, &mut p)?;
            if is_unit_name(textual_info.as_string()) {
                p = string_start;
                break ;
            }
            items_wearing.push(textual_info);
            let mut zeros_seen: usize = 0;
            let mut more = false;
            while zeros_seen < 3
                invariant
                    p <= bytes@.len(),
                    zeros_seen <= 3,
                decreases 3 - zeros_seen,
            {
                let la2 = match crate::byte_stream::look_ahead(bytes, &p) {
                    Ok(v) => v,
                    Err(e) => {
                        return Err(e);
                    },
                };
                if la2 != 0 {
                    more = true;
                    break ;
                }
                proof {
                    assert(p < bytes.len());
                }
                p = p + 1;
                zeros_seen = zeros_seen + 1;
            }
            if more {
                continue ;
            }
            break ;
        }
        *pos = p;
        Ok(HumanInfo { name, details, items_wearing })
    }
}

/// Reads `n` unit rows.
#[verifier::loop_isolation(false)]
pub fn read_unitinfo_list(bytes: &Vec<u8>, pos: &mut usize, n: u32) -> (r: Result<
    Vec<UnitInfo>,
    DecodeError,
>)
    requires
        *old(pos) <= bytes@.len(),
    ensures
        *final(pos) <= bytes@.len(),
        match r {
            Ok(v) => v@.len() == n,
            Err(e) => e == DecodeError::UnexpectedEnd,
        },
{
    let mut out: Vec<UnitInfo> = Vec::new();
    let mut k: u32 = 0;
    let mut p = *pos;
    while k < n
        invariant
            k <= n,
            p <= bytes@.len(),
            out@.len() == k,
        decreases n - k,
    {
        let e = UnitInfo::read_from_stream(bytes, &mut p)?;
        out.push(e);
        k = k + 1;
    }
    *pos = p;
    Ok(out)
}

/// Reads `n` hero rows.
#[verifier::loop_isolation(false)]
pub fn read_humaninfo_list(bytes: &Vec<u8>, pos: &mut usize, n: u32) -> (r: Result<
    Vec<HumanInfo>,
    DecodeError,
>)
    requires
        *old(pos) <= bytes@.len(),
    ensures
        *final(pos) <= bytes@.len(),
        match r {
            Ok(v) => v@.len() == n,
            Err(e) => e == DecodeError::UnexpectedEnd,
        },
{
    let mut out: Vec<HumanInfo> = Vec::new();
    let mut k: u32 = 0;
    let mut p = *pos;
    while k < n
        invariant
            k <= n,
            p <= bytes@.len(),
            out@.len() == k,
        decreases n - k,
    {
        let e = HumanInfo::read_from_stream(bytes, &mut p)?;
        out.push(e);
        k = k + 1;
    }
    *pos = p;
    Ok(out)
}

/// The wieldables, shields and weapons lists.
#[derive(Clone, PartialEq, Debug)]
pub struct ItemSection {
    pub wieldables: Vec<ItemInfo>,
    pub shields: Vec<ItemInfo>,
    pub weapons: Vec<ItemInfo>,
}

impl ItemSection {
    /// Reads three corrected-count item lists.
    pub fn read(bytes: &Vec<u8>, pos: &mut usize) -> (r: Result<ItemSection, DecodeError>)
        requires
            *old(pos) <= bytes@.len(),
        ensures
            *final(pos) <= bytes@.len(),
            r is Err ==> (r.unwrap_err() == DecodeError::UnexpectedEnd || r.unwrap_err()
                == DecodeError::InvalidTag),
    {
        let mut p = *pos;
        let n1 = crate::byte_stream::read_corrected_entry_count(bytes, &mut p)?;
        let wieldables = read_iteminfo_list(bytes, &mut p, n1)?;
        let n2 = crate::byte_stream::read_corrected_entry_count(bytes, &mut p)?;
        let shields = read_iteminfo_list(bytes, &mut p, n2)?;
        let n3 = crate::byte_stream::read_corrected_entry_count(bytes, &mut p)?;
        let weapons = read_iteminfo_list(bytes, &mut p, n3)?;
        *pos = p;
        Ok(ItemSection { wieldables, shields, weapons })
    }
}

/// The parameter table.
#[derive(Clone, PartialEq, Debug)]
pub struct ParameterSection {
    pub data: Vec<ParameterInfo>,
}

impl ParameterSection {
    /// Reads a count word and that many parameter rows.
    pub fn read(bytes: &Vec<u8>, pos: &mut usize) -> (r: Result<ParameterSection, DecodeError>)
        requires
            *old(pos) <= bytes@.len(),
        ensures
            *final(pos) <= bytes@.len(),
            r is Err ==> r.unwrap_err() == DecodeError::UnexpectedEnd,
    {
        let mut p = *pos;
        let n = crate::byte_stream::read_entry_count(bytes, &mut p)?;
        let data = read_parameterinfo_list(bytes, &mut p, n)?;
        *pos = p;
        Ok(ParameterSection { data })
    }
}

/// The material and rarity shape tables.
#[derive(Clone, PartialEq, Debug)]
pub struct ShapeSection {
    pub material_data: Vec<ShapeInfo>,
    pub rarity_data: Vec<ShapeInfo>,
}

impl ShapeSection {
    /// Reads the rarity list then the material list, each with its count.
    pub fn read(bytes: &Vec<u8>, pos: &mut usize) -> (r: Result<ShapeSection, DecodeError>)
        requires
            *old(pos) <= bytes@.len(),
        ensures
            *final(pos) <= bytes@.len(),
            r is Err ==> r.unwrap_err() == DecodeError::UnexpectedEnd,
    {
        let mut p = *pos;
        let n1 = crate::byte_stream::read_entry_count(bytes, &mut p)?;
        let rarity_data = read_shapeinfo_list(bytes, &mut p, n1)?;
        let n2 = crate::byte_stream::read_entry_count(bytes, &mut p)?;
        let material_data = read_shapeinfo_list(bytes, &mut p, n2)?;
        *pos = p;
        Ok(ShapeSection { rarity_data, material_data })
    }
}

/// The magic item table.
#[derive(Clone, PartialEq, Debug)]
pub struct MagicItemSection {
    pub data: Vec<MagicItemInfo>,
}

impl MagicItemSection {
    /// Reads a corrected count and that many magic item rows.
    pub fn read(bytes: &Vec<u8>, pos: &mut usize) -> (r: Result<MagicItemSection, DecodeError>)
        requires
            *old(pos) <= bytes@.len(),
        ensures
            *final(pos) <= bytes@.len(),
            r is Err ==> (r.unwrap_err() == DecodeError::UnexpectedEnd || r.unwrap_err()
                == DecodeError::InvalidTag),
    {
        let mut p = *pos;
        let n = crate::byte_stream::read_corrected_entry_count(bytes, &mut p)?;
        let data = read_magiciteminfo_list(bytes, &mut p, n)?;
        *pos = p;
        Ok(MagicItemSection { data })
    }
}

/// The spell table.
#[derive(Clone, PartialEq, Debug)]
pub struct SpellSection {
    pub data: Vec<SpellInfo>,
}

impl SpellSection {
    /// Reads a corrected count and that many spell rows.
    pub fn read(bytes: &Vec<u8>, pos: &mut usize) -> (r: Result<SpellSection, DecodeError>)
        requires
            *old(pos) <= bytes@.len(),
        ensures
            *final(pos) <= bytes@.len(),
            r is Err ==> (r.unwrap_err() == DecodeError::UnexpectedEnd || r.unwrap_err()
                == DecodeError::InvalidTag),
    {
        let mut p = *pos;
        let n = crate::byte_stream::read_corrected_entry_count(bytes, &mut p)?;
        let data = read_spellinfo_list(bytes, &mut p, n)?;
        *pos = p;
        Ok(SpellSection { data })
    }
}

/// The building table.
#[derive(Clone, PartialEq, Debug)]
pub struct StructureSection {
    pub data: Vec<StructureInfo>,
}

impl StructureSection {
    /// Reads a corrected count and that many building rows.
    pub fn read(bytes: &Vec<u8>, pos: &mut usize) -> (r: Result<StructureSection, DecodeError>)
        requires
            *old(pos) <= bytes@.len(),
        ensures
            *final(pos) <= bytes@.len(),
            r is Err ==> (r.unwrap_err() == DecodeError::UnexpectedEnd || r.unwrap_err()
                == DecodeError::InvalidTag),
    {
        let mut p = *pos;
        let n = crate::byte_stream::read_corrected_entry_count(bytes, &mut p)?;
        let data = read_structureinfo_list(bytes, &mut p, n)?;
        *pos = p;
        Ok(StructureSection { data })
    }
}

/// The monster table: a fixed fifty-six rows.
#[derive(Clone, PartialEq, Debug)]
pub struct UnitSection {
    pub data: Vec<UnitInfo>,
}

impl UnitSection {
    /// Skips the count word and reads the table's fixed row count, then
    /// the trailing padding.
    pub fn read(bytes: &Vec<u8>, pos: &mut usize) -> (r: Result<UnitSection, DecodeError>)
        requires
            *old(pos) <= bytes@.len(),
        ensures
            *final(pos) <= bytes@.len(),
            r is Err ==> r.unwrap_err() == DecodeError::UnexpectedEnd,
    {
        let mut p = *pos;
        skip_bytes(bytes, &mut p, 4)?;
        let data = read_unitinfo_list(bytes, &mut p, 0x38)?;
        skip_zeros(bytes, &mut p);
        *pos = p;
        Ok(UnitSection { data })
    }
}

/// The hero table: a fixed two hundred ten rows.
#[derive(Clone, PartialEq, Debug)]
pub struct HumanSection {
    pub data: Vec<HumanInfo>,
}

impl HumanSection {
    /// Skips the count word and reads the table's fixed row count, then
    /// the trailing padding.
    pub fn read(bytes: &Vec<u8>, pos: &mut usize) -> (r: Result<HumanSection, DecodeError>)
        requires
            *old(pos) <= bytes@.len(),
        ensures
            *final(pos) <= bytes@.len(),
            r is Err ==> r.unwrap_err() == DecodeError::UnexpectedEnd,
    {
        let mut p = *pos;
        skip_bytes(bytes, &mut p, 4)?;
        let data = read_humaninfo_list(bytes, &mut p, 0xD2)?;
        skip_zeros(bytes, &mut p);
        *pos = p;
        Ok(HumanSection { data })
    }
}

/// The whole rules database: eight sections recognized by the name in
/// their headers, in whatever order the file stores them.
#[derive(Clone, PartialEq, Debug)]
pub struct DataBinContent {
    pub shape_section: Option<ShapeSection>,
    pub item_section: Option<ItemSection>,
    pub magic_item_section: Option<MagicItemSection>,
    pub parameter_section: Option<ParameterSection>,
    pub spell_section: Option<SpellSection>,
    pub structure_section: Option<StructureSection>,
    pub unit_section: Option<UnitSection>,
    pub human_section: Option<HumanSection>,
}

impl DataBinContent {
    /// Parses the eight sections in file order, each recognized by the
    /// five name bytes in its header and skipped past its fixed header
    /// size; each stored section comes from its own verified parser.
    pub fn read(bytes: &Vec<u8>) -> (r: Result<DataBinContent, DecodeError>)
        ensures
            r is Err ==> (r.unwrap_err() == DecodeError::UnexpectedEnd || r.unwrap_err()
                == DecodeError::InvalidTag),
    {
        let mut pos: usize = 0;
        let mut shape_section: Option<ShapeSection> = None;
        let mut item_section: Option<ItemSection> = None;
        let mut magic_item_section: Option<MagicItemSection> = None;
        let mut parameter_section: Option<ParameterSection> = None;
        let mut spell_section: Option<SpellSection> = None;
        let mut structure_section: Option<StructureSection> = None;
        let mut unit_section: Option<UnitSection> = None;
        let mut human_section: Option<HumanSection> = None;
        let mut sections_remain: u32 = 8;
        while sections_remain > 0
            invariant
                pos <= bytes@.len(),
            decreases sections_remain,
        {
            if bytes.len() - pos < 10 {
                return Err(DecodeError::UnexpectedEnd);
            }
            let b3 = bytes[pos + 3];
            let b4 = bytes[pos + 4];
            let b5 = bytes[pos + 5];
            let b6 = bytes[pos + 6];
            let b7 = bytes[pos + 7];
            if b3 == 83 && b4 == 104 && b5 == 97 && b6 == 112 && b7 == 101 {
                // "Shape"
                skip_bytes(bytes, &mut pos, 0x66)?;
                shape_section = Some(ShapeSection::read(bytes, &mut pos)?);
            } else if b3 == 80 && b4 == 97 && b5 == 114 && b6 == 97 && b7 == 109 {
                // "Param"
                skip_bytes(bytes, &mut pos, 0x123)?;
                parameter_section = Some(ParameterSection::read(bytes, &mut pos)?);
            } else if b3 == 73 && b4 == 116 && b5 == 101 && b6 == 109 {
                // "Item"
                skip_bytes(bytes, &mut pos, 0xAD)?;
                item_section = Some(ItemSection::read(bytes, &mut pos)?);
            } else if b3 == 77 && b4 == 97 && b5 == 103 && b6 == 105 && b7 == 99 {
                // "Magic"
                skip_bytes(bytes, &mut pos, 0x23)?;
                magic_item_section = Some(MagicItemSection::read(bytes, &mut pos)?);
            } else if b3 == 85 && b4 == 110 && b5 == 105 && b6 == 116 {
                // "Unit"
                skip_bytes(bytes, &mut pos, 0x026B)?;
                unit_section = Some(UnitSection::read(bytes, &mut pos)?);
            } else if b3 == 72 && b4 == 117 && b5 == 109 && b6 == 97 && b7 == 110 {
                // "Human"
                skip_bytes(bytes, &mut pos, 0x14F)?;
                human_section = Some(HumanSection::read(bytes, &mut pos)?);
            } else if b3 == 66 && b4 == 117 && b5 == 105 && b6 == 108 && b7 == 100 {
                // "Build"
                skip_bytes(bytes, &mut pos, 0x56)?;
                structure_section = Some(StructureSection::read(bytes, &mut pos)?);
            } else if b3 == 83 && b4 == 112 && b5 == 101 && b6 == 108 && b7 == 108 {
                // "Spell"
                skip_bytes(bytes, &mut pos, 0x14E)?;
                spell_section = Some(SpellSection::read(bytes, &mut pos)?);
            } else {
                return Err(DecodeError::InvalidTag);
            }
            sections_remain = sections_remain - 1;
        }
        Ok(
            DataBinContent {
                shape_section,
                item_section,
                magic_item_section,
                parameter_section,
                spell_section,
                structure_section,
                unit_section,
                human_section,
            },
        )
    }
}

} // verus!
