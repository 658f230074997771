use vstd::prelude::*;

verus! {

/// The SVG images that hold colors other than black, so painting them a color cannot be done by their alpha channel alone.
pub open spec fn color_svgs() -> Seq<Seq<char>> {
    seq![
        "barrelSlats"@,
        "bed"@,
        "blastFurnaceHolesLit"@,
        "blastFurnaceHolesLit1"@,
        "bonemeal"@,
        "bonemealSmall"@,
        "bonemealSmallNoBorder"@,
        "bookShelves"@,
        "bookShelvesChiseled"@,
        "bookShelvesChiseledEmpty"@,
        "chain"@,
        "clockFrame"@,
        "clockDial0"@,
        "clockDial1"@,
        "clockDial2"@,
        "clockDial3"@,
        "clockDial4"@,
        "clockDial5"@,
        "clockDial6"@,
        "clockDial7"@,
        "clockDial8"@,
        "clockDial9"@,
        "clockDial10"@,
        "clockDial11"@,
        "clockDial12"@,
        "clockDial13"@,
        "clockDial14"@,
        "clockDial15"@,
        "clockDial16"@,
        "clockDial17"@,
        "clockDial18"@,
        "clockDial19"@,
        "clockDial20"@,
        "clockDial21"@,
        "clockDial22"@,
        "clockDial23"@,
        "clockDial24"@,
        "clockDial25"@,
        "clockDial26"@,
        "clockDial27"@,
        "clockDial28"@,
        "clockDial29"@,
        "clockDial30"@,
        "clockDial31"@,
        "clockDial32"@,
        "clockDial33"@,
        "clockDial34"@,
        "clockDial35"@,
        "clockDial36"@,
        "clockDial37"@,
        "clockDial38"@,
        "clockDial39"@,
        "clockDial40"@,
        "clockDial41"@,
        "clockDial42"@,
        "clockDial43"@,
        "clockDial44"@,
        "clockDial45"@,
        "clockDial46"@,
        "clockDial47"@,
        "clockDial48"@,
        "clockDial49"@,
        "clockDial50"@,
        "clockDial51"@,
        "clockDial52"@,
        "clockDial53"@,
        "clockDial54"@,
        "clockDial55"@,
        "clockDial56"@,
        "clockDial57"@,
        "clockDial58"@,
        "clockDial59"@,
        "clockDial60"@,
        "clockDial61"@,
        "clockDial62"@,
        "clockDial63"@,
        "commandBlockChains"@,
        "commandBlockChains4x"@,
        "commandBlockGrid"@,
        "commandBlockGridFront"@,
        "doorKnob"@,
        "furnaceFrontLit"@,
        "loopArrow4x"@,
        "soulFlameTorch"@,
        "soulFlameTorchSmall"@,
        "torchFlame"@,
        "torchFlameSmall"@,
        "torchRedstoneHead"@,
        "vineBerries"@,
    ]
}

/// The SVG images whose pixels are all either fully transparent or fully opaque, with no diagonal or curved edges.
pub open spec fn semitransparency_free_svgs() -> Seq<Seq<char>> {
    seq![
        "barrelSlats"@,
        "blastFurnaceHolesLit"@,
        "blastFurnaceHolesLit1"@,
        "bookShelves"@,
        "bookShelvesChiseled"@,
        "bookShelvesChiseledEmpty"@,
        "borderDotted"@,
        "borderDottedBottomRight"@,
        "borderLongDashes"@,
        "borderShortDashes"@,
        "borderSolid"@,
        "borderSolidExtraThick"@,
        "borderSolidThick"@,
        "borderSolidTopLeftBottomRight"@,
        "bottomHalf"@,
        "bricks"@,
        "bricksSmall"@,
        "checksLarge"@,
        "checksLargeOutline"@,
        "checksLargeTop"@,
        "checksSmall"@,
        "checksSmallOutline"@,
        "checksSmallTop"@,
        "checksTiny"@,
        "commandBlockGrid"@,
        "commandBlockGridFront"@,
        "commandBlockSquare4x"@,
        "craftingGridSpaces"@,
        "craftingGridSpacesCross"@,
        "craftingGridSquare"@,
        "cross"@,
        "crossDotted"@,
        "cutInQuarters1"@,
        "cutInQuarters2"@,
        "diagonalChecksFillerSquaresBottomLeftTopRight"@,
        "diagonalChecksFillerSquaresTopLeftBottomRight"@,
        "flowerStemBottomBorder"@,
        "flowerStemShortBorder"@,
        "flowerStemTallBorder"@,
        "grassShort"@,
        "grassTall"@,
        "grassVeryShort"@,
        "gridSpaces4x"@,
        "gridSpacesCross4x"@,
        "ingotBorder"@,
        "ingotMask"@,
        "jigsawLock"@,
        "largeAmethystBud3"@,
        "leaves1"@,
        "leaves1a"@,
        "leaves2"@,
        "leaves2a"@,
        "leaves3"@,
        "leaves3a"@,
        "leaves3b"@,
        "mushroomStem"@,
        "paneTop"@,
        "planksTopBorder"@,
        "planksTopBorderVertical"@,
        "planksTopVertical"@,
        "rail"@,
        "railTies"@,
        "repeaterSideInputs"@,
        "saplingStem"@,
        "stripesVerticalThick"@,
        "thirdRail"@,
        "tntSticksEnd"@,
        "tntSticksSide"@,
        "tntStripe"@,
        "topPart"@,
        "topStripeThick"@,
        "torchBase"@,
        "torchShadow"@,
        "trapdoor1"@,
    ]
}

/// The names of [`color_svgs`].
pub fn color_svg_names() -> (names: Vec<&'static str>)
    ensures
        names@.map_values(|s: &'static str| s@) == color_svgs(),
{
    let names: Vec<&'static str> = vec![
        "barrelSlats",
        "bed",
        "blastFurnaceHolesLit",
        "blastFurnaceHolesLit1",
        "bonemeal",
        "bonemealSmall",
        "bonemealSmallNoBorder",
        "bookShelves",
        "bookShelvesChiseled",
        "bookShelvesChiseledEmpty",
        "chain",
        "clockFrame",
        "clockDial0",
        "clockDial1",
        "clockDial2",
        "clockDial3",
        "clockDial4",
        "clockDial5",
        "clockDial6",
        "clockDial7",
        "clockDial8",
        "clockDial9",
        "clockDial10",
        "clockDial11",
        "clockDial12",
        "clockDial13",
        "clockDial14",
        "clockDial15",
        "clockDial16",
        "clockDial17",
        "clockDial18",
        "clockDial19",
        "clockDial20",
        "clockDial21",
        "clockDial22",
        "clockDial23",
        "clockDial24",
        "clockDial25",
        "clockDial26",
        "clockDial27",
        "clockDial28",
        "clockDial29",
        "clockDial30",
        "clockDial31",
        "clockDial32",
        "clockDial33",
        "clockDial34",
        "clockDial35",
        "clockDial36",
        "clockDial37",
        "clockDial38",
        "clockDial39",
        "clockDial40",
        "clockDial41",
        "clockDial42",
        "clockDial43",
        "clockDial44",
        "clockDial45",
        "clockDial46",
        "clockDial47",
        "clockDial48",
        "clockDial49",
        "clockDial50",
        "clockDial51",
        "clockDial52",
        "clockDial53",
        "clockDial54",
        "clockDial55",
        "clockDial56",
        "clockDial57",
        "clockDial58",
        "clockDial59",
        "clockDial60",
        "clockDial61",
        "clockDial62",
        "clockDial63",
        "commandBlockChains",
        "commandBlockChains4x",
        "commandBlockGrid",
        "commandBlockGridFront",
        "doorKnob",
        "furnaceFrontLit",
        "loopArrow4x",
        "soulFlameTorch",
        "soulFlameTorchSmall",
        "torchFlame",
        "torchFlameSmall",
        "torchRedstoneHead",
        "vineBerries",
    ];
    assert(names@.map_values(|s: &'static str| s@) =~= color_svgs());
    names
}

/// The names of [`semitransparency_free_svgs`].
pub fn semitransparency_free_svg_names() -> (names: Vec<&'static str>)
    ensures
        names@.map_values(|s: &'static str| s@) == semitransparency_free_svgs(),
{
    let names: Vec<&'static str> = vec![
        "barrelSlats",
        "blastFurnaceHolesLit",
        "blastFurnaceHolesLit1",
        "bookShelves",
        "bookShelvesChiseled",
        "bookShelvesChiseledEmpty",
        "borderDotted",
        "borderDottedBottomRight",
        "borderLongDashes",
        "borderShortDashes",
        "borderSolid",
        "borderSolidExtraThick",
        "borderSolidThick",
        "borderSolidTopLeftBottomRight",
        "bottomHalf",
        "bricks",
        "bricksSmall",
        "checksLarge",
        "checksLargeOutline",
        "checksLargeTop",
        "checksSmall",
        "checksSmallOutline",
        "checksSmallTop",
        "checksTiny",
        "commandBlockGrid",
        "commandBlockGridFront",
        "commandBlockSquare4x",
        "craftingGridSpaces",
        "craftingGridSpacesCross",
        "craftingGridSquare",
        "cross",
        "crossDotted",
        "cutInQuarters1",
        "cutInQuarters2",
        "diagonalChecksFillerSquaresBottomLeftTopRight",
        "diagonalChecksFillerSquaresTopLeftBottomRight",
        "flowerStemBottomBorder",
        "flowerStemShortBorder",
        "flowerStemTallBorder",
        "grassShort",
        "grassTall",
        "grassVeryShort",
        "gridSpaces4x",
        "gridSpacesCross4x",
        "ingotBorder",
        "ingotMask",
        "jigsawLock",
        "largeAmethystBud3",
        "leaves1",
        "leaves1a",
        "leaves2",
        "leaves2a",
        "leaves3",
        "leaves3a",
        "leaves3b",
        "mushroomStem",
        "paneTop",
        "planksTopBorder",
        "planksTopBorderVertical",
        "planksTopVertical",
        "rail",
        "railTies",
        "repeaterSideInputs",
        "saplingStem",
        "stripesVerticalThick",
        "thirdRail",
        "tntSticksEnd",
        "tntSticksSide",
        "tntStripe",
        "topPart",
        "topStripeThick",
        "torchBase",
        "torchShadow",
        "trapdoor1",
    ];
    assert(names@.map_values(|s: &'static str| s@) =~= semitransparency_free_svgs());
    names
}

/// Whether `name` is one of `names`.
fn names_contain(names: &Vec<&'static str>, name: &String) -> (r: bool)
    ensures
        r == names@.map_values(|s: &'static str| s@).contains(name@),
{
    let ghost views = names@.map_values(|s: &'static str| s@);
    let mut i: usize = 0;
    while i < names.len()
        invariant
            i <= names.len(),
            views == names@.map_values(|s: &'static str| s@),
            forall|j: int| 0 <= j < i ==> views[j] != name@,
        decreases names.len() - i,
    {
        let candidate = String::from_str(names[i]);
        if candidate == *name {
            assert(views[i as int] == name@);
            return true;
        }
        i = i + 1;
    }
    false
}

/// Whether the SVG image `name` holds colors other than black.
pub fn is_color_svg(name: &String) -> (r: bool)
    ensures
        r == color_svgs().contains(name@),
{
    names_contain(&color_svg_names(), name)
}

/// Whether the SVG image `name` is free of partial transparency.
pub fn is_semitransparency_free_svg(name: &String) -> (r: bool)
    ensures
        r == semitransparency_free_svgs().contains(name@),
{
    names_contain(&semitransparency_free_svg_names(), name)
}

} // verus!
