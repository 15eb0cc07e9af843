//! The tables of parts, one row per part.
//!
//! To add a part, add a row. All numbers are thousandths.

use vstd::prelude::*;

use super::parts::{
    burned_faces, category_ids, category_views, chosen_index, corner_faces, curved_faces, eye_ids,
    face_ids, horn_eyes, id_index, lemma_unique_is_chosen, lid_eyes, line_ids, line_of, lines_of,
    make_lines, push_burned_faces, push_corner_faces, push_curved_faces, push_horn_eyes,
    push_lid_eyes, push_round_eyes, push_wedge_eyes, round_eyes, wedge_eyes, CategoryView,
    CurveKind, EyePart, FacePart, Form, LineCategory, LinePart, BAR_H, DOCK_H,
};
use super::shape::{at_least_one, shape_points, teeth, tooth, Curve, CurvePoint};
use crate::face::spec::valid_id;

verus! {

// ---- the tables -----------------------------------------------------------------------------

/// The outline with half circles at both sides: id, label, width in the menu bar, height of the
/// eyes.
pub const CAPSULE_FACE: (&'static str, &'static str, u32, u32) = ("capsule", "カプセル", 26000, 500);

/// Outlines with round corners: id, label, width in the menu bar, height of the eyes, then the
/// upper and the lower corners, each horizontal and vertical.
pub const CORNER_FACES: [(&'static str, &'static str, u32, u32, [u32; 2], [u32; 2]); 12] = [
    ("egg", "たまご", 22000, 500, [500, 580], [480, 420]),
    ("round", "まんまる", 22000, 500, [500, 500], [500, 500]),
    ("squircle", "かどまる", 22000, 500, [320, 350], [320, 350]),
    ("box", "しかく", 22000, 500, [160, 180], [160, 180]),
    ("tile", "いた", 24000, 500, [70, 80], [70, 80]),
    ("pear", "しもぶくれ", 22000, 540, [340, 400], [500, 500]),
    ("acorn", "どんぐり", 22000, 480, [500, 560], [280, 300]),
    ("dome", "ドーム", 22000, 520, [500, 640], [180, 200]),
    ("bucket", "バケツ", 22000, 480, [200, 220], [460, 520]),
    ("slim", "おもなが", 18000, 520, [500, 460], [500, 420]),
    ("broad", "よこひろ", 26000, 500, [500, 520], [480, 460]),
    ("lozenge", "ひしがた", 24000, 500, [500, 440], [500, 440]),
];

/// Outlines through points: id, label, width in the menu bar, height of the eyes, then chin, jaw,
/// cheek, temple and crown.
pub const CURVED_FACES: [(&'static str, &'static str, u32, u32, [u32; 5]); 13] = [
    ("oval", "たまご（曲線）", 22000, 520, [20, 200, 460, 420, 280]),
    ("heart", "さかさ三角", 22000, 540, [0, 140, 420, 480, 310]),
    ("jawline", "えらばり", 23000, 520, [0, 370, 450, 420, 260]),
    ("diamond", "ひしがた（曲線）", 23000, 500, [0, 190, 490, 330, 190]),
    ("chin-long", "しゃくれ", 21000, 580, [0, 130, 440, 460, 300]),
    ("cheeky", "ほおぶくれ", 24000, 520, [30, 260, 490, 380, 240]),
    ("teardrop", "しずく", 22000, 550, [0, 120, 380, 480, 340]),
    ("helmetish", "かぶと", 19000, 580, [0, 300, 470, 460, 300]),
    ("bulb", "でんきゅう", 21000, 540, [20, 170, 360, 480, 330]),
    ("shield", "たて", 22000, 520, [0, 240, 470, 450, 220]),
    ("mushroom", "きのこ", 24000, 460, [20, 260, 400, 490, 360]),
    ("cone", "とんがり", 21000, 460, [20, 320, 440, 320, 120]),
    ("pebble", "こいし", 23000, 500, [40, 300, 480, 400, 240]),
];

/// Outlines with sideburns: as those through points, then the height of the notch and the width
/// and height of the tip.
pub const BURNED_FACES: [(&'static str, &'static str, u32, u32, [u32; 5], [u32; 3]); 4] = [
    ("sideburn", "もみあげ", 24000, 560, [150, 200, 470, 440, 320], [260, 300, 10]),
    ("sideburn-long", "ながもみあげ", 24000, 580, [220, 180, 460, 440, 320], [300, 310, 0]),
    ("sideburn-short", "みじかもみあげ", 23000, 540, [100, 220, 460, 430, 300], [190, 320, 30]),
    ("twin-lobe", "ふたふさ", 25000, 560, [180, 140, 440, 460, 340], [280, 340, 20]),
];

/// Eyes with round corners: id, label, width, height and gap, then the radius.
pub const ROUND_EYES: [(&'static str, &'static str, [u32; 3], u32); 12] = [
    ("bead", "つぶら", [3000, 3400, 3200], 500),
    ("bead-small", "ちいさめ", [2400, 2600, 3600], 500),
    ("bead-big", "おおきめ", [4200, 4400, 3400], 500),
    ("oval-tall", "たてなが", [3000, 4600, 3200], 500),
    ("oval-wide", "よこなが", [4600, 3000, 2800], 500),
    ("soft-square", "まるしかく", [3400, 3600, 3200], 280),
    ("hard-square", "かどしかく", [3400, 3600, 3200], 80),
    ("pixel", "ドット", [2800, 2800, 3600], 0),
    ("bar-h", "よこ一文字", [5000, 1800, 2600], 500),
    ("bar-v", "たてすじ", [1800, 4800, 3600], 500),
    ("brick-tall", "たてれんが", [2600, 5000, 3400], 180),
    ("brick-wide", "よこれんが", [5200, 2600, 2600], 180),
];

/// Eyes between two lids: id, label, width, height and gap, then the heights of the inner and the
/// outer corner and the swell of the upper and the lower lid.
pub const LID_EYES: [(&'static str, &'static str, [u32; 3], [u32; 4]); 18] = [
    ("almond", "アーモンド", [4200, 3400, 3000], [500, 500, 450, 450]),
    ("almond-up", "つりめ", [4200, 3600, 3000], [340, 700, 420, 420]),
    ("almond-down", "たれめ", [4200, 3600, 3000], [700, 340, 420, 420]),
    ("leaf", "このは", [4600, 2800, 2800], [500, 500, 300, 300]),
    ("leaf-up", "このは（つり）", [4600, 3000, 2800], [300, 740, 260, 260]),
    ("leaf-down", "このは（たれ）", [4600, 3000, 2800], [740, 300, 260, 260]),
    ("slit", "スリット", [5200, 2200, 2600], [500, 500, 160, 160]),
    ("slit-up", "スリット（つり）", [5200, 2400, 2600], [320, 720, 140, 140]),
    ("slit-down", "スリット（たれ）", [5200, 2400, 2600], [720, 320, 140, 140]),
    ("jito", "ジト目", [4400, 2800, 2800], [500, 500, 100, 460]),
    ("halfmoon", "はんげつ", [4400, 2800, 2800], [500, 500, 460, 100]),
    ("sharp-up", "きつねめ", [4400, 3800, 2800], [220, 860, 300, 300]),
    ("sharp-down", "たぬきめ", [4400, 3800, 2800], [860, 220, 300, 300]),
    ("droplet", "しずく", [3800, 3800, 3000], [620, 400, 520, 240]),
    ("droplet-up", "さかしずく", [3800, 3800, 3000], [400, 620, 240, 520]),
    ("wide-almond", "ひらたアーモンド", [5200, 3000, 2600], [500, 500, 380, 380]),
    ("narrow-almond", "ほそアーモンド", [3200, 3600, 3400], [500, 500, 500, 500]),
    ("round-poly", "まんまる（多角）", [4000, 4000, 3000], [500, 500, 620, 620]),
];

/// Eyes with four corners: id, label, width, height and gap, then the lower and upper height on
/// the inner side and on the outer side.
pub const WEDGE_EYES: [(&'static str, &'static str, [u32; 3], [u32; 4]); 6] = [
    ("wedge", "くさび", [5500, 3000, 2500], [0, 620, 380, 1000]),
    ("wedge-down", "くさび（たれ）", [5500, 3000, 2500], [380, 1000, 0, 620]),
    ("wedge-narrow", "くさび（細）", [5600, 2200, 2400], [0, 480, 520, 1000]),
    ("visor", "バイザー", [6000, 2400, 2200], [100, 900, 0, 1000]),
    ("slot", "スロット", [5000, 2600, 2600], [0, 1000, 0, 1000]),
    ("shard", "かけら", [4400, 4000, 2800], [0, 200, 300, 1000]),
];

/// Round eyes with one corner: id, label, width, height and gap, and whether the corner points up.
pub const HORN_EYES: [(&'static str, &'static str, [u32; 3], bool); 2] = [
    ("horn", "つのつき丸目", [4000, 4200, 3500], true),
    ("horn-down", "つのつき丸目（たれ）", [4000, 4200, 3500], false),
];

/// Hair: id, label, shape and its number, then height, width, rise and offset, and whether it
/// comes in pairs.
pub const HAIR: [(&'static str, &'static str, CurveKind, i32, [i32; 4], bool); 38] = [
    ("none", "なし", CurveKind::Nothing, 0, [500, 0, 0, 0], false),
    ("straight", "ぱっつん", CurveKind::Arc, 0, [740, 880, 10, 0], false),
    ("straight-high", "ぱっつん（高）", CurveKind::Arc, 0, [820, 740, 10, 0], false),
    ("straight-low", "ぱっつん（低）", CurveKind::Arc, 0, [660, 920, 10, 0], false),
    ("round", "まるまえがみ", CurveKind::Arc, 0, [740, 880, 55, 0], false),
    ("round-deep", "まるまえがみ（深）", CurveKind::Arc, 0, [760, 880, 100, 0], false),
    ("bowl", "おかっぱ", CurveKind::Arc, 0, [700, 940, 75, 0], false),
    ("dip", "うちまき", CurveKind::Arc, 0, [760, 880, -55, 0], false),
    ("dip-deep", "うちまき（深）", CurveKind::Arc, 0, [780, 860, -95, 0], false),
    ("widow", "ふじびたい", CurveKind::Vee, 0, [800, 700, -75, 0], false),
    ("wave2", "なみ 2", CurveKind::Wave, 2, [760, 860, 50, 0], false),
    ("wave3", "なみ 3", CurveKind::Wave, 3, [760, 860, 50, 0], false),
    ("wave4", "なみ 4", CurveKind::Wave, 4, [760, 860, 45, 0], false),
    ("wave5", "なみ 5", CurveKind::Wave, 5, [760, 860, 40, 0], false),
    ("spike3", "とげ 3", CurveKind::Wave, 3, [740, 880, 95, 0], false),
    ("spike4", "とげ 4", CurveKind::Wave, 4, [740, 880, 90, 0], false),
    ("spike5", "とげ 5", CurveKind::Wave, 5, [740, 880, 85, 0], false),
    ("spike-tall", "とげ（長）", CurveKind::Wave, 3, [720, 860, 130, 0], false),
    ("part-r", "わけめ（右）", CurveKind::Sweep, 1, [760, 860, 70, 0], false),
    ("part-l", "わけめ（左）", CurveKind::Sweep, -1, [760, 860, 70, 0], false),
    ("part-r-steep", "わけめ（右・急）", CurveKind::Sweep, 1, [760, 840, 120, 0], false),
    ("part-l-steep", "わけめ（左・急）", CurveKind::Sweep, -1, [760, 840, 120, 0], false),
    ("sweep-r-low", "ながしまえがみ（右）", CurveKind::Sweep, 1, [700, 920, 85, 0], false),
    ("sweep-l-low", "ながしまえがみ（左）", CurveKind::Sweep, -1, [700, 920, 85, 0], false),
    ("crest", "クレスト", CurveKind::Ring, 0, [860, 200, 45, 0], false),
    ("crest-wide", "クレスト（大）", CurveKind::Ring, 0, [840, 300, 60, 0], false),
    ("band", "ヘアバンド", CurveKind::Arc, 0, [840, 920, 8, 0], false),
    ("band-low", "ヘアバンド（低）", CurveKind::Arc, 0, [780, 940, 8, 0], false),
    ("tuft", "ちょんまげ", CurveKind::Vee, 0, [900, 220, -55, 0], false),
    ("bald-line", "そりこみ", CurveKind::Sweep, 1, [820, 620, 55, 0], false),
    ("brow", "まゆ", CurveKind::Arc, 0, [720, 640, 25, 0], false),
    ("brow-flat", "まゆ（一文字）", CurveKind::Arc, 0, [720, 640, 4, 0], false),
    ("gate", "ひたいの枠", CurveKind::Bracket, 1, [860, 160, 85, 0], false),
    ("gate-wide", "ひたいの枠（広）", CurveKind::Bracket, 1, [860, 300, 75, 0], false),
    ("plate-crest", "かくクレスト", CurveKind::Plate, 350, [860, 200, 50, 0], false),
    ("antenna", "アンテナ", CurveKind::Bracket, 1, [900, 60, 95, 0], false),
    ("vent-top", "てんめんスリット", CurveKind::Teeth, 3, [840, 600, 95, 0], false),
    ("notches", "きざみ", CurveKind::Teeth, 4, [800, 700, 88, 0], false),
];

/// Noses, as the hair.
pub const NOSE: [(&'static str, &'static str, CurveKind, i32, [i32; 4], bool); 34] = [
    ("none", "なし", CurveKind::Nothing, 0, [500, 0, 0, 0], false),
    ("dot", "てん", CurveKind::Dot, 0, [420, 70, 0, 0], false),
    ("dot-wide", "てん（広）", CurveKind::Dot, 0, [420, 120, 0, 0], false),
    ("dash", "よこぼう", CurveKind::Dot, 0, [400, 180, 0, 0], false),
    ("vee", "への字", CurveKind::Vee, 0, [420, 140, 35, 0], false),
    ("vee-wide", "への字（広）", CurveKind::Vee, 0, [420, 220, 35, 0], false),
    ("vee-deep", "への字（深）", CurveKind::Vee, 0, [430, 160, 60, 0], false),
    ("caret", "やま", CurveKind::Vee, 0, [400, 160, -40, 0], false),
    ("arc", "まる鼻", CurveKind::Arc, 0, [400, 140, -35, 0], false),
    ("arc-wide", "まる鼻（広）", CurveKind::Arc, 0, [400, 220, -35, 0], false),
    ("arc-up", "そり鼻", CurveKind::Arc, 0, [410, 160, 40, 0], false),
    ("hook-l", "かぎ（左）", CurveKind::Hook, 1, [400, 160, 75, 0], false),
    ("hook-r", "かぎ（右）", CurveKind::Hook, -1, [400, 160, 75, 0], false),
    ("hook-l-long", "かぎ（左・長）", CurveKind::Hook, 1, [380, 160, 115, 0], false),
    ("hook-r-long", "かぎ（右・長）", CurveKind::Hook, -1, [380, 160, 115, 0], false),
    ("hook-l-wide", "かぎ（左・広）", CurveKind::Hook, 1, [400, 260, 75, 0], false),
    ("hook-r-wide", "かぎ（右・広）", CurveKind::Hook, -1, [400, 260, 75, 0], false),
    ("bridge", "はなすじ", CurveKind::Dot, 0, [440, 30, 0, 0], false),
    ("ring", "まる（輪）", CurveKind::Ring, 0, [410, 90, 30, 0], false),
    ("ring-wide", "まる（輪・大）", CurveKind::Ring, 0, [410, 140, 40, 0], false),
    ("snout", "ぶた", CurveKind::Ring, 0, [400, 170, 32, 0], false),
    ("beak", "くちばし", CurveKind::Vee, 0, [410, 100, 75, 0], false),
    ("high-dot", "てん（高）", CurveKind::Dot, 0, [470, 70, 0, 0], false),
    ("low-dot", "てん（低）", CurveKind::Dot, 0, [360, 70, 0, 0], false),
    ("high-vee", "への字（高）", CurveKind::Vee, 0, [470, 140, 35, 0], false),
    ("low-vee", "への字（低）", CurveKind::Vee, 0, [360, 140, 35, 0], false),
    ("wave", "ふにゃ", CurveKind::Wave, 2, [410, 160, 30, 0], false),
    ("slant-r", "ななめ（右）", CurveKind::Sweep, 1, [410, 130, 45, 0], false),
    ("slant-l", "ななめ（左）", CurveKind::Sweep, -1, [410, 130, 45, 0], false),
    ("wide-flat", "ひらたい", CurveKind::Arc, 0, [390, 300, -12, 0], false),
    ("stroke", "たてはなすじ", CurveKind::Stroke, 0, [480, 0, 55, 0], false),
    ("stroke-long", "たてはなすじ（長）", CurveKind::Stroke, 0, [500, 0, 95, 0], false),
    ("seam", "つぎめ", CurveKind::Stroke, 0, [440, 0, 30, 0], false),
    ("bolt", "ボルト", CurveKind::Plate, 1000, [420, 50, 32, 0], false),
];

/// Mouths, as the hair.
pub const MOUTH: [(&'static str, &'static str, CurveKind, i32, [i32; 4], bool); 38] = [
    ("none", "なし", CurveKind::Nothing, 0, [500, 0, 0, 0], false),
    ("flat", "一文字", CurveKind::Arc, 0, [280, 340, 6, 0], false),
    ("flat-wide", "一文字（広）", CurveKind::Arc, 0, [280, 520, 6, 0], false),
    ("smile", "わらい", CurveKind::Arc, 0, [290, 340, -38, 0], false),
    ("smile-wide", "わらい（広）", CurveKind::Arc, 0, [290, 520, -38, 0], false),
    ("smile-big", "おおわらい", CurveKind::Arc, 0, [300, 460, -75, 0], false),
    ("grin", "にんまり", CurveKind::Arc, 0, [290, 600, -55, 0], false),
    ("frown", "への字口", CurveKind::Arc, 0, [270, 340, 38, 0], false),
    ("frown-wide", "への字口（広）", CurveKind::Arc, 0, [270, 520, 38, 0], false),
    ("frown-big", "むっつり", CurveKind::Arc, 0, [260, 460, 75, 0], false),
    ("vee-down", "への字（折れ）", CurveKind::Vee, 0, [290, 300, 55, 0], false),
    ("vee-up", "レの字", CurveKind::Vee, 0, [270, 300, -55, 0], false),
    ("wave2", "むにゃ 2", CurveKind::Wave, 2, [280, 400, 35, 0], false),
    ("wave3", "むにゃ 3", CurveKind::Wave, 3, [280, 440, 30, 0], false),
    ("cat", "ねこぐち", CurveKind::Wave, 2, [280, 360, -45, 0], false),
    ("cat-wide", "ねこぐち（広）", CurveKind::Wave, 2, [280, 520, -45, 0], false),
    ("open", "あいたくち", CurveKind::Ring, 0, [280, 180, 55, 0], false),
    ("open-wide", "おおきくあいた", CurveKind::Ring, 0, [280, 260, 80, 0], false),
    ("open-small", "ちいさくあいた", CurveKind::Ring, 0, [280, 110, 35, 0], false),
    ("dot", "てんくち", CurveKind::Dot, 0, [280, 70, 0, 0], false),
    ("smirk-r", "にやり（右）", CurveKind::Sweep, 1, [280, 320, 40, 0], false),
    ("smirk-l", "にやり（左）", CurveKind::Sweep, -1, [280, 320, 40, 0], false),
    ("smirk-r-wide", "にやり（右・広）", CurveKind::Sweep, 1, [280, 480, 45, 0], false),
    ("smirk-l-wide", "にやり（左・広）", CurveKind::Sweep, -1, [280, 480, 45, 0], false),
    ("high-smile", "わらい（高）", CurveKind::Arc, 0, [330, 360, -38, 0], false),
    ("low-smile", "わらい（低）", CurveKind::Arc, 0, [230, 360, -38, 0], false),
    ("high-flat", "一文字（高）", CurveKind::Arc, 0, [330, 360, 6, 0], false),
    ("low-flat", "一文字（低）", CurveKind::Arc, 0, [230, 360, 6, 0], false),
    ("zigzag", "ぎざぐち", CurveKind::Wave, 4, [280, 420, 35, 0], false),
    ("beak", "とがりぐち", CurveKind::Vee, 0, [280, 160, -70, 0], false),
    ("plate", "プレート", CurveKind::Plate, 640, [280, 400, 75, 0], false),
    ("plate-wide", "プレート（広）", CurveKind::Plate, 720, [280, 540, 70, 0], false),
    ("plate-flat", "プレート（浅）", CurveKind::Plate, 1000, [270, 440, 35, 0], false),
    ("grille", "グリル", CurveKind::Teeth, 4, [260, 380, 65, 0], false),
    ("grille-wide", "グリル（広）", CurveKind::Teeth, 6, [260, 520, 65, 0], false),
    ("vent", "つうきこう", CurveKind::Teeth, 3, [260, 300, 70, 0], false),
    ("slot", "スロット", CurveKind::Bracket, 0, [270, 240, 40, 0], false),
    ("mouth-seam", "つぎめ", CurveKind::Stroke, 0, [280, 0, 45, 0], false),
];

/// Pieces at the sides, as the hair; all of them in pairs.
pub const SIDE: [(&'static str, &'static str, CurveKind, i32, [i32; 4], bool); 16] = [
    ("none", "なし", CurveKind::Nothing, 0, [500, 0, 0, 0], false),
    ("ear-panel", "耳パネル", CurveKind::Plate, 1000, [400, 120, 75, 800], true),
    ("ear-panel-tall", "耳パネル（長）", CurveKind::Plate, 1000, [420, 100, 115, 800], true),
    ("ear-taper", "耳パネル（すぼみ）", CurveKind::Plate, 450, [400, 130, 80, 790], true),
    ("ear-round", "耳（丸）", CurveKind::Ring, 0, [400, 130, 70, 780], true),
    ("ear-hook", "耳（かぎ）", CurveKind::Bracket, 0, [410, 120, 70, 780], true),
    ("cheek-seam", "頬のつぎめ", CurveKind::Sweep, 1, [360, 100, 55, 760], true),
    ("cheek-seam-long", "頬のつぎめ（長）", CurveKind::Sweep, 1, [380, 140, 90, 740], true),
    ("jaw-seam", "あごのつぎめ", CurveKind::Sweep, -1, [300, 120, 55, 700], true),
    ("temple-seam", "こめかみのつぎめ", CurveKind::Stroke, 0, [600, 0, 60, 800], true),
    ("vent", "はいきこう", CurveKind::Teeth, 3, [380, 140, 65, 740], true),
    ("hinge", "ヒンジ", CurveKind::Bracket, 1, [440, 90, 55, 800], true),
    ("bolt", "ボルト", CurveKind::Plate, 1000, [440, 60, 35, 820], true),
    ("blush", "ほお", CurveKind::Ring, 0, [320, 140, 38, 720], true),
    ("whisker", "ひげ", CurveKind::Sweep, 1, [300, 160, 30, 720], true),
    ("scar", "きず", CurveKind::Stroke, 0, [460, 0, 70, 760], true),
];

// ---- the parts ------------------------------------------------------------------------------

/// The outline in `CAPSULE_FACE`.
pub open spec fn capsule_face() -> FacePart {
    FacePart {
        id: CAPSULE_FACE.0,
        label: CAPSULE_FACE.1,
        w: CAPSULE_FACE.2,
        eye_v: CAPSULE_FACE.3,
        form: Form::Capsule,
    }
}

/// All outlines.
pub closed spec fn face_table() -> Seq<FacePart> {
    corner_faces(CORNER_FACES@) + seq![capsule_face()] + curved_faces(CURVED_FACES@)
        + burned_faces(BURNED_FACES@)
}

/// All outlines. The first is the default.
pub fn faces() -> (r: Vec<FacePart>)
    ensures
        r@ == face_table(),
        r@.len() == 30,
{
    let mut out: Vec<FacePart> = Vec::new();
    push_corner_faces(&mut out, &CORNER_FACES);
    out.push(
        FacePart {
            id: CAPSULE_FACE.0,
            label: CAPSULE_FACE.1,
            w: CAPSULE_FACE.2,
            eye_v: CAPSULE_FACE.3,
            form: Form::Capsule,
        },
    );
    push_curved_faces(&mut out, &CURVED_FACES);
    push_burned_faces(&mut out, &BURNED_FACES);
    assert(out@ =~= face_table());
    out
}

/// All eyes.
pub closed spec fn eye_table() -> Seq<EyePart> {
    round_eyes(ROUND_EYES@) + lid_eyes(LID_EYES@) + wedge_eyes(WEDGE_EYES@) + horn_eyes(HORN_EYES@)
}

/// All eyes. The first is the default.
pub fn all_eyes() -> (r: Vec<EyePart>)
    ensures
        r@ == eye_table(),
        r@.len() == 38,
{
    let mut out: Vec<EyePart> = Vec::new();
    push_round_eyes(&mut out, &ROUND_EYES);
    push_lid_eyes(&mut out, &LID_EYES);
    push_wedge_eyes(&mut out, &WEDGE_EYES);
    push_horn_eyes(&mut out, &HORN_EYES);
    assert(out@ =~= eye_table());
    out
}

/// All kinds of line, in the order in which they are drawn.
pub closed spec fn line_table() -> Seq<CategoryView> {
    seq![
        CategoryView { id: "hair", label: "髪", on_bar: true, variants: lines_of(HAIR@) },
        CategoryView { id: "nose", label: "鼻", on_bar: false, variants: lines_of(NOSE@) },
        CategoryView { id: "mouth", label: "口", on_bar: false, variants: lines_of(MOUTH@) },
        CategoryView { id: "side", label: "側面", on_bar: false, variants: lines_of(SIDE@) },
    ]
}

/// All kinds of line, in the order in which they are drawn.
pub fn line_categories() -> (r: Vec<LineCategory>)
    ensures
        category_views(r@) == line_table(),
        r@.len() == 4,
        forall|i: int| 0 <= i < 4 ==> (#[trigger] r@[i]).variants@.len() > 0,
{
    let mut out: Vec<LineCategory> = Vec::new();
    out.push(
        LineCategory { id: "hair", label: "髪", on_bar: true, variants: make_lines(&HAIR) },
    );
    out.push(
        LineCategory { id: "nose", label: "鼻", on_bar: false, variants: make_lines(&NOSE) },
    );
    out.push(
        LineCategory { id: "mouth", label: "口", on_bar: false, variants: make_lines(&MOUTH) },
    );
    out.push(
        LineCategory { id: "side", label: "側面", on_bar: false, variants: make_lines(&SIDE) },
    );
    assert(category_views(out@) =~= line_table());
    out
}

// ---- what the tables hold -------------------------------------------------------------------

/// The outlines are the rows of the four tables for outlines, in this order.
pub proof fn face_table_rows()
    ensures
        face_table() == corner_faces(CORNER_FACES@) + seq![capsule_face()] + curved_faces(
            CURVED_FACES@,
        ) + burned_faces(BURNED_FACES@),
{
}

/// The eyes are the rows of the four tables for eyes, in this order.
pub proof fn eye_table_rows()
    ensures
        eye_table() == round_eyes(ROUND_EYES@) + lid_eyes(LID_EYES@) + wedge_eyes(WEDGE_EYES@)
            + horn_eyes(HORN_EYES@),
{
}

/// The kinds of line are hair, noses, mouths and pieces at the sides, each with the rows of its
/// table. Only hair is drawn in the menu bar.
pub proof fn line_table_rows()
    ensures
        line_table() == seq![
            CategoryView { id: "hair", label: "髪", on_bar: true, variants: lines_of(HAIR@) },
            CategoryView { id: "nose", label: "鼻", on_bar: false, variants: lines_of(NOSE@) },
            CategoryView { id: "mouth", label: "口", on_bar: false, variants: lines_of(MOUTH@) },
            CategoryView { id: "side", label: "側面", on_bar: false, variants: lines_of(SIDE@) },
        ],
{
}

/// There are four kinds of line, and the first is hair.
pub proof fn line_table_begins_with_hair()
    ensures
        line_table().len() == 4,
        line_table()[0].label@ == "髪"@,
{
}

/// What the tables begin with: the egg, round beads, and no line of any kind.
pub proof fn tables_begin_with_the_defaults()
    ensures
        face_table().len() == 30,
        face_table()[0].id@ == "egg"@,
        eye_table().len() == 38,
        eye_table()[0].id@ == "bead"@,
        line_table().len() == 4,
        forall|i: int|
            0 <= i < 4 ==> (#[trigger] line_table()[i]).variants.len() > 0
                && line_table()[i].variants[0].id@ == "none"@,
{
    assert(face_table()[0] == corner_faces(CORNER_FACES@)[0]);
    assert(eye_table()[0] == round_eyes(ROUND_EYES@)[0]);
    assert(line_table()[0].variants[0] == line_of(HAIR@[0]));
    assert(line_table()[1].variants[0] == line_of(NOSE@[0]));
    assert(line_table()[2].variants[0] == line_of(MOUTH@[0]));
    assert(line_table()[3].variants[0] == line_of(SIDE@[0]));
}

// ---- ids ------------------------------------------------------------------------------------

/// The length and the first letters of a text.
spec fn opening(s: Seq<char>) -> (nat, char, char, char, char, char, char, char, char) {
    (s.len(), s[0], s[1], s[2], s[3], s[4], s[5], s[6], s[7])
}

#[verifier::spinoff_prover]
#[verifier::rlimit(50)]
proof fn lemma_face_ids()
    ensures
        face_ids(face_table()).no_duplicates(),
{
    reveal_strlit("egg");
    reveal_strlit("round");
    reveal_strlit("squircle");
    reveal_strlit("box");
    reveal_strlit("tile");
    reveal_strlit("pear");
    reveal_strlit("acorn");
    reveal_strlit("dome");
    reveal_strlit("bucket");
    reveal_strlit("slim");
    reveal_strlit("broad");
    reveal_strlit("lozenge");
    reveal_strlit("capsule");
    reveal_strlit("oval");
    reveal_strlit("heart");
    reveal_strlit("jawline");
    reveal_strlit("diamond");
    reveal_strlit("chin-long");
    reveal_strlit("cheeky");
    reveal_strlit("teardrop");
    reveal_strlit("helmetish");
    reveal_strlit("bulb");
    reveal_strlit("shield");
    reveal_strlit("mushroom");
    reveal_strlit("cone");
    reveal_strlit("pebble");
    reveal_strlit("sideburn");
    reveal_strlit("sideburn-long");
    reveal_strlit("sideburn-short");
    reveal_strlit("twin-lobe");
    let ids = face_ids(face_table());
    assert forall|i: int, j: int| 0 <= i < j < ids.len() implies ids[i] != ids[j] by {
        assert(opening(ids[i]) != opening(ids[j]));
    }
}

#[verifier::spinoff_prover]
#[verifier::rlimit(50)]
proof fn lemma_eye_ids()
    ensures
        eye_ids(eye_table()).no_duplicates(),
{
    reveal_strlit("bead");
    reveal_strlit("bead-small");
    reveal_strlit("bead-big");
    reveal_strlit("oval-tall");
    reveal_strlit("oval-wide");
    reveal_strlit("soft-square");
    reveal_strlit("hard-square");
    reveal_strlit("pixel");
    reveal_strlit("bar-h");
    reveal_strlit("bar-v");
    reveal_strlit("brick-tall");
    reveal_strlit("brick-wide");
    reveal_strlit("almond");
    reveal_strlit("almond-up");
    reveal_strlit("almond-down");
    reveal_strlit("leaf");
    reveal_strlit("leaf-up");
    reveal_strlit("leaf-down");
    reveal_strlit("slit");
    reveal_strlit("slit-up");
    reveal_strlit("slit-down");
    reveal_strlit("jito");
    reveal_strlit("halfmoon");
    reveal_strlit("sharp-up");
    reveal_strlit("sharp-down");
    reveal_strlit("droplet");
    reveal_strlit("droplet-up");
    reveal_strlit("wide-almond");
    reveal_strlit("narrow-almond");
    reveal_strlit("round-poly");
    reveal_strlit("wedge");
    reveal_strlit("wedge-down");
    reveal_strlit("wedge-narrow");
    reveal_strlit("visor");
    reveal_strlit("slot");
    reveal_strlit("shard");
    reveal_strlit("horn");
    reveal_strlit("horn-down");
    let ids = eye_ids(eye_table());
    assert forall|i: int, j: int| 0 <= i < j < ids.len() implies ids[i] != ids[j] by {
        assert(opening(ids[i]) != opening(ids[j]));
    }
}

#[verifier::spinoff_prover]
#[verifier::rlimit(50)]
proof fn lemma_category_ids()
    ensures
        category_ids(line_table()).no_duplicates(),
{
    reveal_strlit("hair");
    reveal_strlit("nose");
    reveal_strlit("mouth");
    reveal_strlit("side");
    let ids = category_ids(line_table());
    assert forall|i: int, j: int| 0 <= i < j < ids.len() implies ids[i] != ids[j] by {
        assert(opening(ids[i]) != opening(ids[j]));
    }
}

#[verifier::spinoff_prover]
#[verifier::rlimit(50)]
proof fn lemma_hair_ids()
    ensures
        line_ids(lines_of(HAIR@)).no_duplicates(),
{
    reveal_strlit("none");
    reveal_strlit("straight");
    reveal_strlit("straight-high");
    reveal_strlit("straight-low");
    reveal_strlit("round");
    reveal_strlit("round-deep");
    reveal_strlit("bowl");
    reveal_strlit("dip");
    reveal_strlit("dip-deep");
    reveal_strlit("widow");
    reveal_strlit("wave2");
    reveal_strlit("wave3");
    reveal_strlit("wave4");
    reveal_strlit("wave5");
    reveal_strlit("spike3");
    reveal_strlit("spike4");
    reveal_strlit("spike5");
    reveal_strlit("spike-tall");
    reveal_strlit("part-r");
    reveal_strlit("part-l");
    reveal_strlit("part-r-steep");
    reveal_strlit("part-l-steep");
    reveal_strlit("sweep-r-low");
    reveal_strlit("sweep-l-low");
    reveal_strlit("crest");
    reveal_strlit("crest-wide");
    reveal_strlit("band");
    reveal_strlit("band-low");
    reveal_strlit("tuft");
    reveal_strlit("bald-line");
    reveal_strlit("brow");
    reveal_strlit("brow-flat");
    reveal_strlit("gate");
    reveal_strlit("gate-wide");
    reveal_strlit("plate-crest");
    reveal_strlit("antenna");
    reveal_strlit("vent-top");
    reveal_strlit("notches");
    let ids = line_ids(lines_of(HAIR@));
    assert forall|i: int, j: int| 0 <= i < j < ids.len() implies ids[i] != ids[j] by {
        assert(opening(ids[i]) != opening(ids[j]));
    }
}

#[verifier::spinoff_prover]
#[verifier::rlimit(50)]
proof fn lemma_nose_ids()
    ensures
        line_ids(lines_of(NOSE@)).no_duplicates(),
{
    reveal_strlit("none");
    reveal_strlit("dot");
    reveal_strlit("dot-wide");
    reveal_strlit("dash");
    reveal_strlit("vee");
    reveal_strlit("vee-wide");
    reveal_strlit("vee-deep");
    reveal_strlit("caret");
    reveal_strlit("arc");
    reveal_strlit("arc-wide");
    reveal_strlit("arc-up");
    reveal_strlit("hook-l");
    reveal_strlit("hook-r");
    reveal_strlit("hook-l-long");
    reveal_strlit("hook-r-long");
    reveal_strlit("hook-l-wide");
    reveal_strlit("hook-r-wide");
    reveal_strlit("bridge");
    reveal_strlit("ring");
    reveal_strlit("ring-wide");
    reveal_strlit("snout");
    reveal_strlit("beak");
    reveal_strlit("high-dot");
    reveal_strlit("low-dot");
    reveal_strlit("high-vee");
    reveal_strlit("low-vee");
    reveal_strlit("wave");
    reveal_strlit("slant-r");
    reveal_strlit("slant-l");
    reveal_strlit("wide-flat");
    reveal_strlit("stroke");
    reveal_strlit("stroke-long");
    reveal_strlit("seam");
    reveal_strlit("bolt");
    let ids = line_ids(lines_of(NOSE@));
    assert forall|i: int, j: int| 0 <= i < j < ids.len() implies ids[i] != ids[j] by {
        assert(opening(ids[i]) != opening(ids[j]));
    }
}

#[verifier::spinoff_prover]
#[verifier::rlimit(50)]
proof fn lemma_mouth_ids()
    ensures
        line_ids(lines_of(MOUTH@)).no_duplicates(),
{
    reveal_strlit("none");
    reveal_strlit("flat");
    reveal_strlit("flat-wide");
    reveal_strlit("smile");
    reveal_strlit("smile-wide");
    reveal_strlit("smile-big");
    reveal_strlit("grin");
    reveal_strlit("frown");
    reveal_strlit("frown-wide");
    reveal_strlit("frown-big");
    reveal_strlit("vee-down");
    reveal_strlit("vee-up");
    reveal_strlit("wave2");
    reveal_strlit("wave3");
    reveal_strlit("cat");
    reveal_strlit("cat-wide");
    reveal_strlit("open");
    reveal_strlit("open-wide");
    reveal_strlit("open-small");
    reveal_strlit("dot");
    reveal_strlit("smirk-r");
    reveal_strlit("smirk-l");
    reveal_strlit("smirk-r-wide");
    reveal_strlit("smirk-l-wide");
    reveal_strlit("high-smile");
    reveal_strlit("low-smile");
    reveal_strlit("high-flat");
    reveal_strlit("low-flat");
    reveal_strlit("zigzag");
    reveal_strlit("beak");
    reveal_strlit("plate");
    reveal_strlit("plate-wide");
    reveal_strlit("plate-flat");
    reveal_strlit("grille");
    reveal_strlit("grille-wide");
    reveal_strlit("vent");
    reveal_strlit("slot");
    reveal_strlit("mouth-seam");
    let ids = line_ids(lines_of(MOUTH@));
    assert forall|i: int, j: int| 0 <= i < j < ids.len() implies ids[i] != ids[j] by {
        assert(opening(ids[i]) != opening(ids[j]));
    }
}

#[verifier::spinoff_prover]
#[verifier::rlimit(50)]
proof fn lemma_side_ids()
    ensures
        line_ids(lines_of(SIDE@)).no_duplicates(),
{
    reveal_strlit("none");
    reveal_strlit("ear-panel");
    reveal_strlit("ear-panel-tall");
    reveal_strlit("ear-taper");
    reveal_strlit("ear-round");
    reveal_strlit("ear-hook");
    reveal_strlit("cheek-seam");
    reveal_strlit("cheek-seam-long");
    reveal_strlit("jaw-seam");
    reveal_strlit("temple-seam");
    reveal_strlit("vent");
    reveal_strlit("hinge");
    reveal_strlit("bolt");
    reveal_strlit("blush");
    reveal_strlit("whisker");
    reveal_strlit("scar");
    let ids = line_ids(lines_of(SIDE@));
    assert forall|i: int, j: int| 0 <= i < j < ids.len() implies ids[i] != ids[j] by {
        assert(opening(ids[i]) != opening(ids[j]));
    }
}

// ---- laws -----------------------------------------------------------------------------------

/// No id stands twice in a table: not among the outlines, the eyes, the kinds of line, or the
/// lines of one kind.
pub proof fn law_ids_are_unique()
    ensures
        face_ids(face_table()).no_duplicates(),
        eye_ids(eye_table()).no_duplicates(),
        category_ids(line_table()).no_duplicates(),
        forall|c: int|
            0 <= c < line_table().len() ==> line_ids(
                (#[trigger] line_table()[c]).variants,
            ).no_duplicates(),
{
    lemma_face_ids();
    lemma_eye_ids();
    lemma_category_ids();
    lemma_hair_ids();
    lemma_nose_ids();
    lemma_mouth_ids();
    lemma_side_ids();
    assert forall|c: int| 0 <= c < line_table().len() implies line_ids(
        (#[trigger] line_table()[c]).variants,
    ).no_duplicates() by {
        assert(c == 0 || c == 1 || c == 2 || c == 3);
    }
}

/// Every outline can be chosen by its id.
pub proof fn law_every_outline_can_be_chosen(i: int)
    requires
        0 <= i < face_table().len(),
    ensures
        face_table()[chosen_index(face_ids(face_table()), face_table()[i].id@)] == face_table()[i],
{
    lemma_face_ids();
    lemma_unique_is_chosen(face_ids(face_table()), i);
}

/// Every pair of eyes can be chosen by its id.
pub proof fn law_every_eye_can_be_chosen(i: int)
    requires
        0 <= i < eye_table().len(),
    ensures
        eye_table()[chosen_index(eye_ids(eye_table()), eye_table()[i].id@)] == eye_table()[i],
{
    lemma_eye_ids();
    lemma_unique_is_chosen(eye_ids(eye_table()), i);
}

/// Every kind of line is found by its id, and every line of it can be chosen by its own.
pub proof fn law_every_line_can_be_chosen(c: int, i: int)
    requires
        0 <= c < line_table().len(),
        0 <= i < line_table()[c].variants.len(),
    ensures
        id_index(category_ids(line_table()), line_table()[c].id@) == c,
        ({
            let all = line_table()[c].variants;
            all[chosen_index(line_ids(all), all[i].id@)] == all[i]
        }),
{
    law_ids_are_unique();
    lemma_unique_is_chosen(category_ids(line_table()), c);
    lemma_unique_is_chosen(line_ids(line_table()[c].variants), i);
}

/// The id of a kind of line can be the name of a panel line.
pub proof fn law_kinds_have_valid_ids(c: int)
    requires
        0 <= c < line_table().len(),
    ensures
        valid_id(line_table()[c].id@),
{
    reveal_strlit("hair");
    reveal_strlit("nose");
    reveal_strlit("mouth");
    reveal_strlit("side");
}

/// There is enough to choose from.
pub proof fn law_there_is_enough_to_choose_from(c: int)
    requires
        0 <= c < line_table().len(),
    ensures
        face_table().len() >= 30,
        eye_table().len() >= 30,
        line_table()[c].variants.len() >= if line_table()[c].id@ == "side"@ {
            8int
        } else {
            30int
        },
{
    tables_begin_with_the_defaults();
}

/// The body is neither too narrow nor too wide for the menu bar.
pub proof fn law_bodies_have_a_reasonable_width(i: int)
    requires
        0 <= i < face_table().len(),
    ensures
        16_000 <= face_table()[i].w <= 28_000,
{
}

/// Whether the upright part of a shape is what makes it.
pub open spec fn is_upright(curve: Curve) -> bool {
    curve is Teeth || curve is Bracket || curve is Plate || curve is Stroke
}

/// Whether one point of a line stands at least twice the width of a line above another, where
/// the line rises by `amp`, in a body of height `h`. All numbers are thousandths.
pub open spec fn far_above(high: CurvePoint, low: CurvePoint, amp: i32, h: u32, line: int) -> bool {
    &&& high matches CurvePoint::At { lift: hi, .. }
    &&& low matches CurvePoint::At { lift: lo, .. }
    &&& hi.den == 1
    &&& lo.den == 1
    &&& (hi.num - lo.num) * amp * h >= 1000 * 2 * line
}

/// Whether a line of this width leaves space between its points, in a body of height `h`.
pub open spec fn stays_open(p: LinePart, h: u32, line: int) -> bool {
    exists|i: int, j: int|
        {
            &&& 0 <= i < shape_points(p.curve).len()
            &&& 0 <= j < shape_points(p.curve).len()
            &&& #[trigger] far_above(
                shape_points(p.curve)[i],
                shape_points(p.curve)[j],
                p.amp,
                h,
                line,
            )
        }
}

/// Upright shapes do not collapse at their real size: the points of such a line are further
/// apart in height than two lines are wide, where it is smallest. Rings lie on a circle and are
/// left out.
pub proof fn law_upright_lines_stay_open(c: int, i: int)
    requires
        0 <= c < line_table().len(),
        0 <= i < line_table()[c].variants.len(),
        is_upright(line_table()[c].variants[i].curve),
    ensures
        line_table()[c].on_bar ==> stays_open(line_table()[c].variants[i], BAR_H, 800),
        !line_table()[c].on_bar ==> stays_open(line_table()[c].variants[i], DOCK_H, 1000),
{
    let p = line_table()[c].variants[i];
    if c == 0 {
        assert(p == line_of(HAIR@[i]));
        lemma_upright_span(p, BAR_H, 800);
    } else if c == 1 {
        assert(p == line_of(NOSE@[i]));
        lemma_upright_span(p, DOCK_H, 1000);
    } else if c == 2 {
        assert(p == line_of(MOUTH@[i]));
        lemma_upright_span(p, DOCK_H, 1000);
    } else {
        assert(p == line_of(SIDE@[i]));
        lemma_upright_span(p, DOCK_H, 1000);
    }
}

/// How far the points of an upright shape are apart, as a multiple of the line's rise.
spec fn span(curve: Curve) -> int {
    if curve is Teeth {
        1
    } else {
        2
    }
}

proof fn lemma_upright_span(p: LinePart, h: u32, line: int)
    requires
        is_upright(p.curve),
        span(p.curve) * p.amp * h >= 1000 * 2 * line,
    ensures
        stays_open(p, h, line),
{
    let points = shape_points(p.curve);
    match p.curve {
        Curve::Teeth(n) => {
            lemma_first_tooth(at_least_one(n), at_least_one(n) as nat);
            assert(points[1] == tooth(at_least_one(n), 0)[1]);
            assert(points[0] == tooth(at_least_one(n), 0)[0]);
            assert(far_above(points[1], points[0], p.amp, h, line));
        },
        Curve::Bracket { down } => {
            if down {
                assert(far_above(points[1], points[0], p.amp, h, line));
            } else {
                assert(far_above(points[0], points[1], p.amp, h, line));
            }
        },
        Curve::Plate { taper } => {
            assert(far_above(points[0], points[2], p.amp, h, line));
        },
        _ => {
            assert(far_above(points[0], points[1], p.amp, h, line));
        },
    }
}

proof fn lemma_first_tooth(n: int, k: nat)
    requires
        k > 0,
    ensures
        teeth(n, k).len() >= 4,
        forall|i: int| 0 <= i < 4 ==> #[trigger] teeth(n, k)[i] == tooth(n, 0)[i],
    decreases k,
{
    if k > 1 {
        lemma_first_tooth(n, (k - 1) as nat);
    } else {
        assert(teeth(n, 0) =~= Seq::<CurvePoint>::empty());
    }
}

/// Lines that come in pairs stand well away from the middle and reach no further than the side.
pub proof fn law_pairs_stand_at_the_side(c: int, i: int)
    requires
        0 <= c < line_table().len(),
        0 <= i < line_table()[c].variants.len(),
        line_table()[c].variants[i].mirror,
    ensures
        line_table()[c].variants[i].off > 400,
        line_table()[c].variants[i].off + line_table()[c].variants[i].w <= 1000,
{
    if c == 0 {
        assert(line_table()[c].variants[i] == line_of(HAIR@[i]));
        assert(!HAIR@[i].5);
    } else if c == 1 {
        assert(line_table()[c].variants[i] == line_of(NOSE@[i]));
        assert(!NOSE@[i].5);
    } else if c == 2 {
        assert(line_table()[c].variants[i] == line_of(MOUTH@[i]));
        assert(!MOUTH@[i].5);
    } else {
        assert(line_table()[c].variants[i] == line_of(SIDE@[i]));
        assert(SIDE@[i].4@[3] > 400 && SIDE@[i].4@[3] + SIDE@[i].4@[1] <= 1000 && SIDE@[i].4@[1] >= 0);
    }
}

} // verus!
