//! Structural invariants of the machine specification, over every machine.

use build198x::mediaspec::{machine, machines, ConstraintRule, PaletteModel};

#[test]
fn machine_ids_unique_and_resolvable() {
    let all = machines();
    for (i, m) in all.iter().enumerate() {
        assert!(
            all.iter().skip(i + 1).all(|other| other.id != m.id),
            "duplicate machine id {:?}",
            m.id
        );
        let found = machine(m.id).unwrap_or_else(|| panic!("machine({:?}) not found", m.id));
        assert_eq!(found.id, m.id, "machine({:?}) resolved wrongly", m.id);
        assert_eq!(found.name, m.name);
        assert_eq!(found.modes.len(), m.modes.len());
    }
    assert!(machine("no-such-machine").is_none());
}

#[test]
fn mode_names_unique_per_machine() {
    for m in machines() {
        for (i, mode) in m.modes.iter().enumerate() {
            assert!(
                m.modes.iter().skip(i + 1).all(|other| other.name != mode.name),
                "{}: duplicate mode name {:?}",
                m.id,
                mode.name
            );
        }
    }
}

#[test]
fn geometry_components_nonzero() {
    for m in machines() {
        for mode in &m.modes {
            assert!(mode.paper_width > 0, "{}/{}", m.id, mode.name);
            assert!(mode.paper_height > 0, "{}/{}", m.id, mode.name);
            assert!(
                mode.pixel_aspect.horizontal > 0 && mode.pixel_aspect.vertical > 0,
                "{}/{}: zero pixel-aspect component",
                m.id,
                mode.name
            );
        }
    }
}

#[test]
fn cell_grids_divide_paper_evenly() {
    for m in machines() {
        for mode in &m.modes {
            let Some(cell) = mode.cell else { continue };
            assert!(cell.width > 0 && cell.height > 0 && cell.free_colours > 0);
            assert_eq!(mode.paper_width % u16::from(cell.width), 0, "{}/{}", m.id, mode.name);
            assert_eq!(mode.paper_height % u16::from(cell.height), 0, "{}/{}", m.id, mode.name);
        }
    }
}

#[test]
fn constraint_shape_matches_mode_fields() {
    for m in machines() {
        for mode in &m.modes {
            match mode.constraint {
                ConstraintRule::Planar { max_planes } => {
                    assert!(mode.cell.is_none(), "{}/{}", m.id, mode.name);
                    assert!(max_planes > 0, "{}/{}", m.id, mode.name);
                    assert_eq!(mode.planes(), Some(max_planes));
                }
                _ => {
                    assert!(mode.cell.is_some(), "{}/{}", m.id, mode.name);
                    assert_eq!(mode.planes(), None);
                }
            }
        }
    }
}

#[test]
fn fixed_palettes_complete_and_defaults_pinned() {
    for m in machines() {
        match &m.palette {
            PaletteModel::Fixed(palettes) => {
                assert!(!palettes.is_empty(), "{}: no interpretations", m.id);
                let count = palettes[0].colours.len();
                for (i, p) in palettes.iter().enumerate() {
                    assert_eq!(p.colours.len(), count, "{}/{}", m.id, p.name);
                    assert!(!p.source.is_empty(), "{}/{}: no provenance", m.id, p.name);
                    assert!(
                        palettes.iter().skip(i + 1).all(|other| other.name != p.name),
                        "{}: duplicate interpretation name {:?}",
                        m.id,
                        p.name
                    );
                }
                let default = m
                    .default_interpretation
                    .unwrap_or_else(|| panic!("{}: fixed palette without pinned default", m.id));
                assert!(m.interpretation(default).is_some());
                assert!(m.default_palette().is_some());
            }
            PaletteModel::Gamut { bits_per_gun } => {
                assert!(*bits_per_gun > 0, "{}: zero-bit gamut", m.id);
                assert!(m.default_interpretation.is_none());
            }
        }
    }
}

/// The machine-id lookup gives each machine back and nothing for an
/// unknown id; every mode name finds its own mode.
#[test]
fn every_mode_resolves_by_name() {
    for m in machines() {
        for mode in &m.modes {
            let found = m.mode(mode.name).expect("mode resolves");
            assert_eq!(found.paper_width, mode.paper_width);
            assert_eq!(found.constraint, mode.constraint);
        }
        assert!(m.mode("no-such-mode").is_none());
    }
}
