//! Choosing a conversion's target from its options, and where the mix
//! table keeps a colour pair.

use build198x::convert::constrain::pair_index;
use build198x::convert::dither::DitherMode;
use build198x::convert::pipeline::{check_cell_dither, select_target, Options};
use build198x::convert::ConvertError;

#[test]
fn a_known_target_is_selected_with_its_mode() {
    let (m, i) = select_target(&Options::new("commodore-c64", "multicolour-bitmap")).unwrap();
    assert_eq!(m.id, "commodore-c64");
    assert_eq!(m.modes[i].name, "multicolour-bitmap");
}

#[test]
fn the_target_refusals_come_in_order() {
    let mut o = Options::new("acorn-electron", "nope");
    o.strength = 65;
    assert_eq!(select_target(&o).err(), Some(ConvertError::InvalidStrength { strength: 65 }));
    o.strength = 64;
    assert_eq!(select_target(&o).err(), Some(ConvertError::UnknownMachine { machine: "acorn-electron".to_owned() }));
    let o = Options::new("commodore-c64", "nope");
    assert_eq!(
        select_target(&o).err(),
        Some(ConvertError::UnknownMode { machine: "commodore-c64".to_owned(), mode: "nope".to_owned() })
    );
}

#[test]
fn cell_targets_refuse_error_diffusion() {
    let mut o = Options::new("sinclair-zx-spectrum", "standard");
    assert_eq!(check_cell_dither(&o), Ok(()));
    o.dither = DitherMode::FloydSteinberg;
    assert_eq!(check_cell_dither(&o), Err(ConvertError::DiffusionNeedsFreePalette));
    o.no_dither = true;
    assert_eq!(check_cell_dither(&o), Ok(()));
}

#[test]
fn the_mix_table_numbers_pairs_row_by_row() {
    assert_eq!(pair_index(4, 0, 0), 0);
    assert_eq!(pair_index(4, 0, 3), 3);
    assert_eq!(pair_index(4, 1, 1), 4);
    assert_eq!(pair_index(4, 2, 2), 7);
    assert_eq!(pair_index(4, 3, 3), 9);
}
